//! The store that all connections share: a map from key to frame, and a map
//! from key to a map from field to frame.
//!
//! Both maps are `dashmap::DashMap`s, so operations on different keys do not
//! wait for one another, and the two maps never wait for each other. Every
//! handle reads and writes the same state, and any other handle may write
//! between two calls made through this one. Nothing is therefore promised
//! about what a lookup finds: what is done with the answer is decided, and
//! proved, where the answer is used.
//!
//! A call into a map waits while the calling thread itself holds a guard on
//! the same map. No guard leaves this module, and none is held across a
//! call into the map that it guards.

use vstd::prelude::*;
use dashmap::mapref::one::{Ref, RefMut};
use dashmap::DashMap;
use std::ops::Deref;
use std::sync::Arc;
use crate::resp::frame::RespFrame;

verus! {

/// `dashmap::DashMap`, a concurrent hash map. Its contents can change
/// between any two calls, so nothing is said of them.
#[verifier::external_type_specification]
#[verifier::external_body]
#[verifier::reject_recursive_types(K)]
#[verifier::reject_recursive_types(V)]
#[verifier::reject_recursive_types(S)]
pub struct ExDashMap<K, V, S>(DashMap<K, V, S>);

/// `dashmap::mapref::one::Ref`, a read guard on one entry of a map.
#[verifier::external_type_specification]
#[verifier::external_body]
#[verifier::reject_recursive_types(K)]
#[verifier::reject_recursive_types(V)]
pub struct ExRef<'a, K, V>(Ref<'a, K, V>);

/// `dashmap::mapref::one::RefMut`, a write guard on one entry of a map.
#[verifier::external_type_specification]
#[verifier::external_body]
#[verifier::reject_recursive_types(K)]
#[verifier::reject_recursive_types(V)]
pub struct ExRefMut<'a, K, V>(RefMut<'a, K, V>);

/// The fields of one hash key.
pub type Fields = DashMap<String, RespFrame>;

/// `DashMap::new`: a map with no entries.
#[verifier::external_body]
fn new_map<V>() -> DashMap<String, V> {
    DashMap::new()
}

/// `DashMap::get`: a read guard on the entry under `key`, if there is one
/// at the moment of the call.
#[verifier::external_body]
fn entry_of<'a, V>(map: &'a DashMap<String, V>, key: &str) -> Option<Ref<'a, String, V>> {
    map.get(key)
}

/// `Ref::value`: the value that a read guard guards.
#[verifier::external_body]
fn value_of<'a, 'b, V>(entry: &'b Ref<'a, String, V>) -> &'b V {
    entry.value()
}

/// `DashMap::insert`: puts `value` under `key`, in place of what was there.
#[verifier::external_body]
fn store<V>(map: &DashMap<String, V>, key: String, value: V) {
    map.insert(key, value);
}

/// `DashMap::entry` and `Entry::or_default`: a write guard on the entry
/// under `key`, which is made with no fields if it was not there.
#[verifier::external_body]
fn slot_of<'a>(map: &'a DashMap<String, Fields>, key: String) -> RefMut<'a, String, Fields> {
    map.entry(key).or_default()
}

/// `RefMut::value`: the fields that a write guard guards.
#[verifier::external_body]
fn fields_in<'a, 'b>(slot: &'b RefMut<'a, String, Fields>) -> &'b Fields {
    slot.value()
}

/// Copies out the frame under `key`, if there is one.
fn fetch(map: &Fields, key: &str) -> Option<RespFrame> {
    match entry_of(map, key) {
        Some(entry) => Some(value_of(&entry).clone()),
        None => None,
    }
}

/// The state behind every handle.
#[derive(Debug)]
pub struct BackendInner {
    pub map: DashMap<String, RespFrame>,
    pub hmap: DashMap<String, DashMap<String, RespFrame>>,
}

/// A handle to the shared store. Cloning it gives another handle to the
/// same state; the state is freed with the last handle.
#[derive(Debug, Clone)]
pub struct Backend(pub Arc<BackendInner>);

impl Deref for Backend {
    type Target = BackendInner;

    fn deref(&self) -> (inner: &BackendInner)
        ensures
            *inner == *self.0,
    {
        &*self.0
    }
}

impl Default for BackendInner {
    fn default() -> BackendInner {
        BackendInner { map: new_map(), hmap: new_map() }
    }
}

impl Default for Backend {
    fn default() -> Backend {
        Backend(Arc::new(BackendInner::default()))
    }
}

impl Backend {
    /// A handle to a new, empty store.
    pub fn new() -> Backend {
        Backend::default()
    }

    /// The frame stored under `key`, if any.
    pub fn get(&self, key: &str) -> Option<RespFrame> {
        fetch(&self.0.map, key)
    }

    /// Stores `value` under `key`, replacing what was there.
    pub fn set(&self, key: String, value: RespFrame) {
        store(&self.0.map, key, value)
    }

    /// The frame stored under `field` of the hash `key`, if the hash exists
    /// and has that field.
    pub fn hget(&self, key: &str, field: &str) -> Option<RespFrame> {
        match entry_of(&self.0.hmap, key) {
            Some(entry) => fetch(value_of(&entry), field),
            None => None,
        }
    }

    /// Stores `value` under `field` of the hash `key`. The hash is created
    /// by its first write.
    pub fn hset(&self, key: String, field: String, value: RespFrame) {
        let slot = slot_of(&self.0.hmap, key);
        store(fields_in(&slot), field, value);
    }
}

} // verus!
