use bytes::BytesMut;
use simple_redis::cmd::{extract_args, validate_command};
use simple_redis::{
    resp_ok, Backend, BulkString, Command, CommandError, Get, HGet, HSet, RespArray, RespFrame,
    RespNull, RespNullArray, SetKey, SimpleString,
};

fn bulk(bytes: &[u8]) -> RespFrame {
    RespFrame::BulkString(BulkString::new(bytes.to_vec()))
}

fn request(parts: &[&[u8]]) -> RespArray {
    RespArray::new(parts.iter().map(|p| bulk(p)).collect())
}

fn decode_array(bytes: &[u8]) -> RespArray {
    let mut buf = BytesMut::new();
    buf.extend_from_slice(bytes);
    RespArray::decode(&mut buf).unwrap()
}

fn invalid(reason: &str) -> CommandError {
    CommandError::InvalidArgument(reason.to_string())
}

#[test]
fn test_get_from_resp_array() {
    let mut buf = BytesMut::new();
    buf.extend_from_slice(b"*2\r\n$3\r\nget\r\n$5\r\nhello\r\n");

    let frame = RespArray::decode(&mut buf).unwrap();

    let result: Get = frame.try_into().unwrap();
    assert_eq!(result.key, "hello");
}

#[test]
fn test_set_from_resp_array() {
    let mut buf = BytesMut::new();
    buf.extend_from_slice(b"*3\r\n$3\r\nset\r\n$5\r\nhello\r\n$5\r\nworld\r\n");

    let frame = RespArray::decode(&mut buf).unwrap();

    let result: SetKey = frame.try_into().unwrap();
    assert_eq!(result.key, "hello");
    assert_eq!(result.val, RespFrame::BulkString(b"world".into()));
}

#[test]
fn test_set_get_command() {
    let backend = Backend::new();
    let cmd = SetKey {
        key: "hello".to_string(),
        val: RespFrame::BulkString(b"world".into()),
    };
    let result = cmd.execute(&backend);
    assert_eq!(result, resp_ok());

    let cmd = Get {
        key: "hello".to_string(),
    };
    let result = cmd.execute(&backend);
    assert_eq!(result, RespFrame::BulkString(b"world".into()));
}

#[test]
fn the_success_status_is_ok() {
    assert_eq!(resp_ok(), RespFrame::SimpleString(SimpleString::new("OK".to_string())));
    assert_eq!(resp_ok().encode(), b"+OK\r\n");
}

#[test]
fn requests_become_typed_commands() {
    let get = Command::try_from(decode_array(b"*2\r\n$3\r\nget\r\n$5\r\nhello\r\n")).unwrap();
    assert_eq!(get, Command::Get(Get { key: "hello".to_string() }));

    let set = Command::try_from(decode_array(
        b"*3\r\n$3\r\nset\r\n$5\r\nhello\r\n$5\r\nworld\r\n",
    ))
    .unwrap();
    assert_eq!(
        set,
        Command::SetKey(SetKey { key: "hello".to_string(), val: bulk(b"world") })
    );

    let hget = Command::try_from(request(&[b"hget", b"h", b"f"])).unwrap();
    assert_eq!(hget, Command::HGet(HGet { key: "h".to_string(), field: "f".to_string() }));

    let hset = Command::try_from(request(&[b"hset", b"h", b"f", b"v"])).unwrap();
    assert_eq!(
        hset,
        Command::HSet(HSet { key: "h".to_string(), field: "f".to_string(), val: bulk(b"v") })
    );
}

#[test]
fn a_value_may_be_any_kind_of_frame() {
    let value = RespFrame::Array(RespArray::new(vec![RespFrame::Null(RespNull), bulk(b"x")]));
    let array = RespArray::new(vec![bulk(b"set"), bulk(b"k"), value.clone()]);
    let set: SetKey = array.try_into().unwrap();
    assert_eq!(set, SetKey { key: "k".to_string(), val: value.clone() });

    let array = RespArray::new(vec![bulk(b"hset"), bulk(b"k"), bulk(b"f"), value.clone()]);
    let hset: HSet = array.try_into().unwrap();
    assert_eq!(hset.val, value);
}

#[test]
fn an_unknown_verb_is_an_unknown_command() {
    let err = Command::try_from(decode_array(b"*1\r\n$4\r\nnope\r\n")).unwrap_err();
    assert_eq!(err, CommandError::UnknownCommand("nope".to_string()));

    let err = Command::try_from(request(&[b"GET", b"hello"])).unwrap_err();
    assert_eq!(err, CommandError::UnknownCommand("GET".to_string()));

    let err = Command::try_from(request(&[b"ge\xfft"])).unwrap_err();
    assert_eq!(err, CommandError::UnknownCommand("ge\u{fffd}t".to_string()));

    let err = Command::try_from(request(&[b""])).unwrap_err();
    assert_eq!(err, CommandError::UnknownCommand("".to_string()));
}

#[test]
fn a_wrong_number_of_arguments_is_an_invalid_argument() {
    let err = Command::try_from(decode_array(b"*1\r\n$3\r\nget\r\n")).unwrap_err();
    assert_eq!(err, invalid("wrong number of arguments"));

    for parts in [
        &[&b"get"[..], b"a", b"b"][..],
        &[b"set", b"a"],
        &[b"set", b"a", b"b", b"c"],
        &[b"hget", b"a"],
        &[b"hget", b"a", b"b", b"c"],
        &[b"hset", b"a", b"b"],
        &[b"hset"],
    ] {
        assert_eq!(
            Command::try_from(request(parts)).unwrap_err(),
            invalid("wrong number of arguments")
        );
    }
}

#[test]
fn a_constructor_checks_its_own_verb() {
    let err = Get::try_from(request(&[b"set", b"k"])).unwrap_err();
    assert_eq!(err, invalid("unexpected command verb"));
    let err = Get::try_from(request(&[b"Get", b"k"])).unwrap_err();
    assert_eq!(err, invalid("unexpected command verb"));
    let err = SetKey::try_from(request(&[b"get", b"k", b"v"])).unwrap_err();
    assert_eq!(err, invalid("unexpected command verb"));
    let err = HGet::try_from(request(&[b"hset", b"k", b"f"])).unwrap_err();
    assert_eq!(err, invalid("unexpected command verb"));
    let err = HSet::try_from(request(&[b"hget", b"k", b"f", b"v"])).unwrap_err();
    assert_eq!(err, invalid("unexpected command verb"));
    let err = Get::try_from(RespArray::new(vec![RespFrame::Null(RespNull), bulk(b"k")]))
        .unwrap_err();
    assert_eq!(err, invalid("unexpected command verb"));
    let err = Get::try_from(request(&[b"set"])).unwrap_err();
    assert_eq!(err, invalid("wrong number of arguments"));
}

#[test]
fn keys_and_fields_have_to_be_text() {
    let not_bulk = RespFrame::SimpleString(SimpleString::new("k".to_string()));
    let err = Get::try_from(RespArray::new(vec![bulk(b"get"), not_bulk.clone()])).unwrap_err();
    assert_eq!(err, invalid("Invalid key"));
    let err = Get::try_from(request(&[b"get", b"\xff\xfe"])).unwrap_err();
    assert_eq!(err, invalid("Invalid key"));

    let err = SetKey::try_from(RespArray::new(vec![bulk(b"set"), not_bulk.clone(), bulk(b"v")]))
        .unwrap_err();
    assert_eq!(err, invalid("Invalid key or value"));
    let err = SetKey::try_from(request(&[b"set", b"\xc3", b"v"])).unwrap_err();
    assert_eq!(err, invalid("Invalid key or value"));

    let err = HGet::try_from(request(&[b"hget", b"k", b"\xff"])).unwrap_err();
    assert_eq!(err, invalid("Invalid key or field"));
    let err = HGet::try_from(RespArray::new(vec![bulk(b"hget"), not_bulk.clone(), bulk(b"f")]))
        .unwrap_err();
    assert_eq!(err, invalid("Invalid key or field"));

    let err = HSet::try_from(request(&[b"hset", b"\xff", b"f", b"v"])).unwrap_err();
    assert_eq!(err, invalid("Invalid key, field or value"));
    let err =
        HSet::try_from(RespArray::new(vec![bulk(b"hset"), bulk(b"k"), not_bulk, bulk(b"v")]))
            .unwrap_err();
    assert_eq!(err, invalid("Invalid key, field or value"));

    let get = Get::try_from(request(&[b"get", "cl\u{e9}".as_bytes()])).unwrap();
    assert_eq!(get.key, "cl\u{e9}");
}

#[test]
fn only_an_array_that_leads_with_a_bulk_string_is_a_request() {
    let err = Command::try_from(bulk(b"get")).unwrap_err();
    assert_eq!(err, invalid("command must be an array"));
    let err = Command::try_from(RespFrame::NullArray(RespNullArray)).unwrap_err();
    assert_eq!(err, invalid("command must be an array"));
    let err = Command::try_from(RespFrame::Array(RespArray::new(vec![]))).unwrap_err();
    assert_eq!(err, invalid("command must start with a bulk string"));
    let err = Command::try_from(RespArray::new(vec![RespFrame::Null(RespNull)])).unwrap_err();
    assert_eq!(err, invalid("command must start with a bulk string"));
    let cmd = Command::try_from(RespFrame::Array(request(&[b"get", b"k"]))).unwrap();
    assert_eq!(cmd, Command::Get(Get { key: "k".to_string() }));
}

#[test]
fn validate_command_checks_arity_then_verbs() {
    let value = request(&[b"config", b"get", b"maxmemory"]);
    assert_eq!(validate_command(&value, &["config", "get"], 1), Ok(()));
    assert_eq!(validate_command(&value, &["config"], 2), Ok(()));
    assert_eq!(validate_command(&value, &[], 3), Ok(()));
    assert_eq!(
        validate_command(&value, &["config", "get"], 2),
        Err(invalid("wrong number of arguments"))
    );
    assert_eq!(
        validate_command(&value, &["config", "get"], 0),
        Err(invalid("wrong number of arguments"))
    );
    assert_eq!(
        validate_command(&value, &["config", "set"], 1),
        Err(invalid("unexpected command verb"))
    );
    assert_eq!(
        validate_command(&value, &["Config", "get"], 1),
        Err(invalid("unexpected command verb"))
    );
    assert_eq!(
        validate_command(&value, &["a", "b", "c", "d"], 0),
        Err(invalid("wrong number of arguments"))
    );
    assert_eq!(
        validate_command(&value, &["config", "get"], usize::MAX),
        Err(invalid("wrong number of arguments"))
    );
}

#[test]
fn extract_args_gives_what_follows_the_verbs() {
    let value = || request(&[b"hset", b"k", b"f", b"v"]);
    assert_eq!(extract_args(value(), 1), vec![bulk(b"k"), bulk(b"f"), bulk(b"v")]);
    assert_eq!(extract_args(value(), 0).len(), 4);
    assert_eq!(extract_args(value(), 3), vec![bulk(b"v")]);
    assert_eq!(extract_args(value(), 4), Vec::<RespFrame>::new());
    assert_eq!(extract_args(value(), 9), Vec::<RespFrame>::new());
}

#[test]
fn set_then_get_returns_the_value() {
    let backend = Backend::new();
    let set = Command::try_from(request(&[b"set", b"hello", b"world"])).unwrap();
    assert_eq!(set.execute(&backend), resp_ok());
    let get = Command::try_from(request(&[b"get", b"hello"])).unwrap();
    assert_eq!(get.execute(&backend), bulk(b"world"));
}

#[test]
fn get_of_an_absent_key_is_null() {
    let backend = Backend::new();
    let get = Get { key: "nothing".to_string() };
    assert_eq!(get.execute(&backend), RespFrame::Null(RespNull));
}

#[test]
fn set_overwrites() {
    let backend = Backend::new();
    SetKey { key: "k".to_string(), val: bulk(b"one") }.execute(&backend);
    SetKey { key: "k".to_string(), val: bulk(b"two") }.execute(&backend);
    assert_eq!(Get { key: "k".to_string() }.execute(&backend), bulk(b"two"));
}

#[test]
fn hset_then_hget_returns_the_value() {
    let backend = Backend::new();
    let hset = HSet { key: "h".to_string(), field: "f".to_string(), val: bulk(b"v") };
    assert_eq!(hset.execute(&backend), resp_ok());
    let hget = HGet { key: "h".to_string(), field: "f".to_string() };
    assert_eq!(hget.execute(&backend), bulk(b"v"));
}

#[test]
fn hget_of_an_absent_key_or_field_is_null() {
    let backend = Backend::new();
    let hget = HGet { key: "h".to_string(), field: "f".to_string() };
    assert_eq!(hget.execute(&backend), RespFrame::Null(RespNull));

    HSet { key: "h".to_string(), field: "f".to_string(), val: bulk(b"v") }.execute(&backend);
    let hget = HGet { key: "h".to_string(), field: "other".to_string() };
    assert_eq!(hget.execute(&backend), RespFrame::Null(RespNull));
    let hget = HGet { key: "other".to_string(), field: "f".to_string() };
    assert_eq!(hget.execute(&backend), RespFrame::Null(RespNull));
}

#[test]
fn plain_keys_and_hashes_do_not_mix() {
    let backend = Backend::new();
    SetKey { key: "k".to_string(), val: bulk(b"plain") }.execute(&backend);
    HSet { key: "k".to_string(), field: "f".to_string(), val: bulk(b"hashed") }.execute(&backend);
    assert_eq!(Get { key: "k".to_string() }.execute(&backend), bulk(b"plain"));
    assert_eq!(
        HGet { key: "k".to_string(), field: "f".to_string() }.execute(&backend),
        bulk(b"hashed")
    );
    assert_eq!(Get { key: "f".to_string() }.execute(&backend), RespFrame::Null(RespNull));
}
