//! What holds of the codec for every frame: encoding and decoding are
//! inverse to one another, a frame that has not arrived in full is never
//! mistaken for anything else, and frames sent back to back come out one by
//! one.

use vstd::prelude::*;
use vstd::utf8::*;
use super::scan::{
    lemma_decimal_roundtrip, lemma_first_crlf, lemma_first_crlf_absent, lemma_first_crlf_found,
};
use super::wire::{
    crlf, crlf_at, decimal, encode_from, first_crlf, frame_span, is_digit, items_span,
    nests_within, no_crlf, parse_frame, parse_header, parse_items, parse_line, spec_encode,
    wire_safe, FrameView, Header, ARRAY_PREFIX, BULK_STRING_PREFIX, CR, LF, MAX_DEPTH,
    NULL_PREFIX, SIMPLE_ERROR_PREFIX, SIMPLE_STRING_PREFIX,
};
use super::RespError;

verus! {

/// A frame that the decoder gives back as it was sent: it is wire-safe, its
/// arrays nest no deeper than the decoder follows, and its representation
/// fits in memory.
pub open spec fn decodable(v: FrameView) -> bool {
    wire_safe(v) && nests_within(v, MAX_DEPTH as nat) && spec_encode(v).len() <= usize::MAX
}

/// A header that announces `n` reads as the count `n`, whatever follows it.
proof fn lemma_header_count(prefix: u8, n: nat, tail: Seq<u8>)
    requires
        n <= usize::MAX,
    ensures
        parse_header(seq![prefix] + decimal(n) + crlf() + tail) == (Header::Count {
            count: n,
            used: (decimal(n).len() + 3) as nat,
        }),
{
    let digits = decimal(n);
    let b = seq![prefix] + digits + crlf() + tail;
    let end = 1 + digits.len() as int;
    lemma_decimal_roundtrip(n);
    assert forall|j: int| 1 <= j < end implies !crlf_at(b, j) by {}
    lemma_first_crlf_found(b, 1, end);
    assert(b.subrange(1, end) =~= digits);
}

/// A header that is cut short before its line terminator ends is
/// incomplete.
proof fn lemma_header_partial(prefix: u8, n: nat, k: int)
    requires
        0 <= k < decimal(n).len() + 3,
    ensures
        parse_header((seq![prefix] + decimal(n) + crlf()).take(k)) == Header::Incomplete,
{
    let digits = decimal(n);
    let c = (seq![prefix] + digits + crlf()).take(k);
    lemma_decimal_roundtrip(n);
    assert forall|j: int| 1 <= j implies !crlf_at(c, j) by {}
    lemma_first_crlf_absent(c, 1);
}

/// The null header reads as null, whatever follows it.
proof fn lemma_header_null(prefix: u8, tail: Seq<u8>)
    ensures
        parse_header(seq![prefix, 45u8, 49u8, CR, LF] + tail) == (Header::Null { used: 5 }),
{
    let b = seq![prefix, 45u8, 49u8, CR, LF] + tail;
    assert forall|j: int| 1 <= j < 3 implies !crlf_at(b, j) by {}
    lemma_first_crlf_found(b, 1, 3);
    assert(b.subrange(1, 3) =~= seq![45u8, 49u8]);
}

/// The null header cut short is incomplete.
proof fn lemma_header_null_partial(prefix: u8, k: int)
    requires
        0 <= k < 5,
    ensures
        parse_header(seq![prefix, 45u8, 49u8, CR, LF].take(k)) == Header::Incomplete,
{
    let c = seq![prefix, 45u8, 49u8, CR, LF].take(k);
    assert forall|j: int| 1 <= j implies !crlf_at(c, j) by {}
    lemma_first_crlf_absent(c, 1);
}

/// A line that holds a text without line terminator reads as that text,
/// whatever follows it.
proof fn lemma_line(prefix: u8, text: Seq<char>, tail: Seq<u8>)
    requires
        no_crlf(encode_utf8(text)),
    ensures
        parse_line(seq![prefix] + encode_utf8(text) + crlf() + tail) == Ok::<
            (Seq<char>, nat),
            RespError,
        >((text, (encode_utf8(text).len() + 3) as nat)),
{
    let payload = encode_utf8(text);
    let b = seq![prefix] + payload + crlf() + tail;
    let end = 1 + payload.len() as int;
    assert forall|j: int| 1 <= j < end implies !crlf_at(b, j) by {
        if j + 1 < end {
            assert(!crlf_at(payload, j - 1));
        }
    }
    lemma_first_crlf_found(b, 1, end);
    assert(b.subrange(1, end) =~= payload);
    encode_utf8_valid_utf8(text);
    encode_utf8_decode_utf8(text);
}

/// A line cut short before its line terminator ends is incomplete.
proof fn lemma_line_partial(prefix: u8, text: Seq<char>, k: int)
    requires
        no_crlf(encode_utf8(text)),
        0 <= k < encode_utf8(text).len() + 3,
    ensures
        parse_line((seq![prefix] + encode_utf8(text) + crlf()).take(k)) == Err::<
            (Seq<char>, nat),
            RespError,
        >(RespError::NotComplete),
{
    let payload = encode_utf8(text);
    let c = (seq![prefix] + payload + crlf()).take(k);
    assert forall|j: int| 1 <= j implies !crlf_at(c, j) by {
        if j + 1 < c.len() {
            if j + 1 <= payload.len() {
                assert(!crlf_at(payload, j - 1));
            }
        }
    }
    lemma_first_crlf_absent(c, 1);
}

/// No frame is represented by fewer than three bytes.
pub proof fn lemma_encode_len(v: FrameView)
    ensures
        spec_encode(v).len() >= 3,
{
    match v {
        FrameView::SimpleString(_) => {},
        FrameView::Error(_) => {},
        FrameView::BulkString(_) => {},
        FrameView::NullBulkString => {},
        FrameView::Array(_) => {},
        FrameView::NullArray => {},
        FrameView::Null => {},
    }
}

/// The representations of the frames from `from` on are at least as many
/// bytes as there are frames.
proof fn lemma_encode_from_len(items: Seq<FrameView>, from: int)
    requires
        0 <= from <= items.len(),
    ensures
        encode_from(items, from).len() >= items.len() - from,
    decreases items.len() - from,
{
    if from < items.len() {
        lemma_encode_len(items[from]);
        lemma_encode_from_len(items, from + 1);
    }
}

/// Decoding a frame's representation gives the frame back, with its
/// length, whatever follows it.
proof fn lemma_parse_encoded(v: FrameView, tail: Seq<u8>, depth: nat)
    requires
        wire_safe(v),
        nests_within(v, depth),
        spec_encode(v).len() <= usize::MAX,
    ensures
        parse_frame(spec_encode(v) + tail, depth) == Ok::<(FrameView, nat), RespError>(
            (v, spec_encode(v).len()),
        ),
    decreases v, 0nat,
{
    let b = spec_encode(v) + tail;
    match v {
        FrameView::SimpleString(text) => {
            lemma_line(b[0], text, tail);
        },
        FrameView::Error(text) => {
            lemma_line(b[0], text, tail);
        },
        FrameView::BulkString(data) => {
            let n = data.len();
            let body = data + crlf() + tail;
            assert(b =~= seq![b[0]] + decimal(n) + crlf() + body);
            lemma_header_count(b[0], n, body);
            let used = decimal(n).len() as int + 3;
            let end = used + n;
            assert(b.subrange(used, end) =~= data);
        },
        FrameView::NullBulkString => {
            lemma_header_null(b[0], tail);
        },
        FrameView::Array(items) => {
            let n = items.len();
            let body = encode_from(items, 0) + tail;
            assert(b =~= seq![b[0]] + decimal(n) + crlf() + body);
            lemma_encode_from_len(items, 0);
            lemma_header_count(b[0], n, body);
            let used = decimal(n).len() as int + 3;
            assert(b.skip(used) =~= body);
            lemma_parse_encoded_items(items, 0, tail, (depth - 1) as nat);
            assert(items.skip(0) =~= items);
        },
        FrameView::NullArray => {
            lemma_header_null(b[0], tail);
        },
        FrameView::Null => {},
    }
}

/// Decoding the representations of `items[from..]` gives those frames back,
/// whatever follows them.
proof fn lemma_parse_encoded_items(items: Seq<FrameView>, from: int, tail: Seq<u8>, depth: nat)
    requires
        0 <= from <= items.len(),
        forall|i: int| from <= i < items.len() ==> wire_safe(#[trigger] items[i]),
        forall|i: int| from <= i < items.len() ==> nests_within(#[trigger] items[i], depth),
        encode_from(items, from).len() <= usize::MAX,
    ensures
        parse_items(encode_from(items, from) + tail, (items.len() - from) as nat, depth) == Ok::<
            (Seq<FrameView>, nat),
            RespError,
        >((items.skip(from), encode_from(items, from).len())),
    decreases items, items.len() - from,
{
    if from < items.len() {
        let first = spec_encode(items[from]);
        let rest = encode_from(items, from + 1);
        let b = encode_from(items, from) + tail;
        assert(b =~= first + (rest + tail));
        lemma_parse_encoded(items[from], rest + tail, depth);
        assert(b.skip(first.len() as int) =~= rest + tail);
        lemma_parse_encoded_items(items, from + 1, tail, depth);
        assert(seq![items[from]] + items.skip(from + 1) =~= items.skip(from));
    } else {
        assert(items.skip(from) =~= Seq::<FrameView>::empty());
    }
}

/// Decoding a representation that is cut short says that more is needed.
proof fn lemma_parse_partial(v: FrameView, k: int, depth: nat)
    requires
        wire_safe(v),
        nests_within(v, depth),
        spec_encode(v).len() <= usize::MAX,
        0 <= k < spec_encode(v).len(),
    ensures
        parse_frame(spec_encode(v).take(k), depth) == Err::<(FrameView, nat), RespError>(
            RespError::NotComplete,
        ),
    decreases v, 0nat,
{
    let whole = spec_encode(v);
    let c = whole.take(k);
    if k > 0 {
        match v {
            FrameView::SimpleString(text) => {
                lemma_line_partial(whole[0], text, k);
            },
            FrameView::Error(text) => {
                lemma_line_partial(whole[0], text, k);
            },
            FrameView::BulkString(data) => {
                let n = data.len();
                let head = seq![whole[0]] + decimal(n) + crlf();
                let used = head.len() as int;
                if k < used {
                    assert(c =~= head.take(k));
                    lemma_header_partial(whole[0], n, k);
                } else {
                    let body = (data + crlf()).take(k - used);
                    assert(c =~= head + body);
                    lemma_header_count(whole[0], n, body);
                }
            },
            FrameView::NullBulkString => {
                lemma_header_null_partial(whole[0], k);
            },
            FrameView::Array(items) => {
                let n = items.len();
                let head = seq![whole[0]] + decimal(n) + crlf();
                let used = head.len() as int;
                lemma_encode_from_len(items, 0);
                if k < used {
                    assert(c =~= head.take(k));
                    lemma_header_partial(whole[0], n, k);
                } else {
                    let body = encode_from(items, 0).take(k - used);
                    assert(c =~= head + body);
                    lemma_header_count(whole[0], n, body);
                    assert(c.skip(used) =~= body);
                    lemma_parse_partial_items(items, 0, k - used, (depth - 1) as nat);
                }
            },
            FrameView::NullArray => {
                lemma_header_null_partial(whole[0], k);
            },
            FrameView::Null => {},
        }
    }
}

/// Decoding the representations of `items[from..]`, cut short, says that
/// more is needed.
proof fn lemma_parse_partial_items(items: Seq<FrameView>, from: int, k: int, depth: nat)
    requires
        0 <= from <= items.len(),
        forall|i: int| from <= i < items.len() ==> wire_safe(#[trigger] items[i]),
        forall|i: int| from <= i < items.len() ==> nests_within(#[trigger] items[i], depth),
        encode_from(items, from).len() <= usize::MAX,
        0 <= k < encode_from(items, from).len(),
    ensures
        parse_items(encode_from(items, from).take(k), (items.len() - from) as nat, depth) == Err::<
            (Seq<FrameView>, nat),
            RespError,
        >(RespError::NotComplete),
    decreases items, items.len() - from,
{
    let first = spec_encode(items[from]);
    let rest = encode_from(items, from + 1);
    let c = encode_from(items, from).take(k);
    if k < first.len() {
        assert(c =~= first.take(k));
        lemma_parse_partial(items[from], k, depth);
    } else {
        let cut = rest.take(k - first.len());
        assert(c =~= first + cut);
        lemma_parse_encoded(items[from], cut, depth);
        assert(c.skip(first.len() as int) =~= cut);
        lemma_parse_partial_items(items, from + 1, k - first.len(), depth);
    }
}

/// A line terminator that is found in `b` is found at the same place in
/// any `other` that agrees with `b` up to the end of that terminator.
proof fn lemma_first_crlf_local(b: Seq<u8>, other: Seq<u8>, from: int)
    requires
        0 <= from,
        first_crlf(b, from) is Some,
        first_crlf(b, from)->Some_0 + 2 <= other.len(),
        forall|i: int| 0 <= i < first_crlf(b, from)->Some_0 + 2 ==> other[i] == b[i],
    ensures
        first_crlf(other, from) == first_crlf(b, from),
{
    let end = first_crlf(b, from)->Some_0;
    lemma_first_crlf(b, from);
    assert forall|j: int| from <= j < end implies !crlf_at(other, j) by {
        assert(!crlf_at(b, j));
    }
    lemma_first_crlf_found(other, from, end);
}

/// A header that has arrived in full reads the same in any `other` that
/// agrees with `b` on the header's bytes.
proof fn lemma_header_local(b: Seq<u8>, other: Seq<u8>)
    requires
        first_crlf(b, 1) is Some,
        first_crlf(b, 1)->Some_0 + 2 <= other.len(),
        forall|i: int| 0 <= i < first_crlf(b, 1)->Some_0 + 2 ==> other[i] == b[i],
    ensures
        parse_header(other) == parse_header(b),
        first_crlf(b, 1)->Some_0 + 2 <= b.len(),
        first_crlf(b, 1)->Some_0 >= 1,
{
    let end = first_crlf(b, 1)->Some_0;
    lemma_first_crlf(b, 1);
    lemma_first_crlf_local(b, other, 1);
    assert(other.subrange(1, end) =~= b.subrange(1, end));
}

/// A frame that decodes occupies at least three bytes, all of which are
/// there.
pub proof fn lemma_parse_bounds(b: Seq<u8>, depth: nat)
    ensures
        parse_frame(b, depth) matches Ok((_, used)) ==> 3 <= used <= b.len(),
    decreases depth, 0nat,
{
    if b.len() > 0 {
        lemma_first_crlf(b, 1);
        if b[0] == ARRAY_PREFIX && depth > 0 {
            if let Header::Count { count, used } = parse_header(b) {
                lemma_parse_items_bounds(b.skip(used as int), count, (depth - 1) as nat);
            }
        }
    }
}

/// The frames that decode one after another are as many as were asked
/// for, and occupy only bytes that are there.
pub proof fn lemma_parse_items_bounds(b: Seq<u8>, count: nat, depth: nat)
    ensures
        parse_items(b, count, depth) matches Ok((items, used)) ==> items.len() == count && used
            <= b.len(),
    decreases depth, count + 1,
{
    if count > 0 {
        lemma_parse_bounds(b, depth);
        if let Ok((_, used)) = parse_frame(b, depth) {
            lemma_parse_items_bounds(b.skip(used as int), (count - 1) as nat, depth);
        }
    }
}

/// The length that is expected of a frame in a buffer is one that a buffer
/// can have.
pub proof fn lemma_span_fits(b: Seq<u8>, depth: nat)
    requires
        b.len() <= usize::MAX,
    ensures
        frame_span(b, depth) matches Ok(len) ==> len <= usize::MAX,
{
    if b.len() > 0 {
        lemma_first_crlf(b, 1);
    }
}

/// The length that is expected of a run of frames in a buffer is one that
/// a buffer can have.
pub proof fn lemma_items_span_fits(b: Seq<u8>, count: nat, depth: nat)
    requires
        b.len() <= usize::MAX,
    ensures
        items_span(b, count, depth) matches Ok(len) ==> len <= usize::MAX,
{
    if count == 1 {
        lemma_span_fits(b, depth);
    }
}

/// A frame that decodes has the length that was to be expected of it.
pub proof fn lemma_span_of_parsed(b: Seq<u8>, depth: nat)
    requires
        b.len() <= usize::MAX,
        parse_frame(b, depth) is Ok,
    ensures
        frame_span(b, depth) == Ok::<nat, RespError>(parse_frame(b, depth)->Ok_0.1),
    decreases depth, 0nat,
{
    lemma_parse_bounds(b, depth);
    lemma_first_crlf(b, 1);
    if b[0] == ARRAY_PREFIX {
        if let Header::Count { count, used } = parse_header(b) {
            lemma_parse_items_bounds(b.skip(used as int), count, (depth - 1) as nat);
            lemma_items_span_of_parsed(b.skip(used as int), count, (depth - 1) as nat);
        }
    }
}

/// A run of frames that decodes has the length that was to be expected of
/// it.
proof fn lemma_items_span_of_parsed(b: Seq<u8>, count: nat, depth: nat)
    requires
        b.len() <= usize::MAX,
        parse_items(b, count, depth) is Ok,
    ensures
        items_span(b, count, depth) == Ok::<nat, RespError>(parse_items(b, count, depth)->Ok_0.1),
    decreases depth, count + 1,
{
    if count > 0 {
        let used = parse_frame(b, depth)->Ok_0.1;
        lemma_parse_bounds(b, depth);
        lemma_span_of_parsed(b, depth);
        lemma_parse_items_bounds(b.skip(used as int), (count - 1) as nat, depth);
        lemma_items_span_of_parsed(b.skip(used as int), (count - 1) as nat, depth);
    }
}

/// What the decoder yields nests no deeper than the decoder follows.
pub proof fn lemma_parsed_nests(b: Seq<u8>, depth: nat)
    ensures
        parse_frame(b, depth) matches Ok((frame, _)) ==> nests_within(frame, depth),
    decreases depth, 0nat,
{
    if b.len() > 0 && b[0] == ARRAY_PREFIX && depth > 0 {
        if let Header::Count { count, used } = parse_header(b) {
            lemma_parsed_items_nest(b.skip(used as int), count, (depth - 1) as nat);
        }
    }
}

/// The frames of a run that the decoder yields nest no deeper than the
/// decoder follows.
proof fn lemma_parsed_items_nest(b: Seq<u8>, count: nat, depth: nat)
    ensures
        parse_items(b, count, depth) matches Ok((items, _)) ==> forall|i: int|
            0 <= i < items.len() ==> nests_within(#[trigger] items[i], depth),
    decreases depth, count + 1,
{
    if count > 0 {
        lemma_parsed_nests(b, depth);
        if let Ok((_, used)) = parse_frame(b, depth) {
            lemma_parsed_items_nest(b.skip(used as int), (count - 1) as nat, depth);
        }
    }
}

/// Locality: a frame decodes the same way from any input that agrees with
/// `b` on the bytes that the frame occupies. What follows a frame is
/// never looked at.
pub proof fn lemma_parse_local(b: Seq<u8>, other: Seq<u8>, depth: nat)
    requires
        parse_frame(b, depth) is Ok,
        parse_frame(b, depth)->Ok_0.1 <= other.len(),
        other.take(parse_frame(b, depth)->Ok_0.1 as int) == b.take(
            parse_frame(b, depth)->Ok_0.1 as int,
        ),
    ensures
        parse_frame(other, depth) == parse_frame(b, depth),
    decreases depth, 0nat,
{
    let n = parse_frame(b, depth)->Ok_0.1 as int;
    lemma_parse_bounds(b, depth);
    assert forall|i: int| 0 <= i < n implies other[i] == b[i] by {
        assert(other.take(n)[i] == b.take(n)[i]);
    }
    lemma_first_crlf(b, 1);
    if b[0] == SIMPLE_STRING_PREFIX || b[0] == SIMPLE_ERROR_PREFIX {
        lemma_first_crlf_local(b, other, 1);
        let end = first_crlf(b, 1)->Some_0;
        assert(other.subrange(1, end) =~= b.subrange(1, end));
    } else if b[0] == BULK_STRING_PREFIX {
        lemma_header_local(b, other);
        if let Header::Count { count, used } = parse_header(b) {
            let start = used as int;
            let end = start + count;
            assert(other.subrange(start, end) =~= b.subrange(start, end));
        }
    } else if b[0] == NULL_PREFIX {
    } else if b[0] == ARRAY_PREFIX {
        if let Header::Count { count, used } = parse_header(b) {
            let rest = b.skip(used as int);
            let rest_other = other.skip(used as int);
            lemma_parse_items_bounds(rest, count, (depth - 1) as nat);
            let len = parse_items(rest, count, (depth - 1) as nat)->Ok_0.1 as int;
            lemma_header_local(b, other);
            assert(rest_other.take(len) =~= rest.take(len)) by {
                assert forall|i: int| 0 <= i < len implies rest_other[i] == rest[i] by {}
            }
            lemma_parse_items_local(rest, rest_other, count, (depth - 1) as nat);
        } else {
            lemma_header_local(b, other);
        }
    }
}

/// Locality for a run of frames.
proof fn lemma_parse_items_local(b: Seq<u8>, other: Seq<u8>, count: nat, depth: nat)
    requires
        parse_items(b, count, depth) is Ok,
        parse_items(b, count, depth)->Ok_0.1 <= other.len(),
        other.take(parse_items(b, count, depth)->Ok_0.1 as int) == b.take(
            parse_items(b, count, depth)->Ok_0.1 as int,
        ),
    ensures
        parse_items(other, count, depth) == parse_items(b, count, depth),
    decreases depth, count + 1,
{
    if count > 0 {
        let total = parse_items(b, count, depth)->Ok_0.1 as int;
        let used = parse_frame(b, depth)->Ok_0.1 as int;
        let rest = b.skip(used);
        let rest_other = other.skip(used);
        lemma_parse_bounds(b, depth);
        lemma_parse_items_bounds(rest, (count - 1) as nat, depth);
        assert forall|i: int| 0 <= i < total implies other[i] == b[i] by {
            assert(other.take(total)[i] == b.take(total)[i]);
        }
        assert(other.take(used) =~= b.take(used));
        lemma_parse_local(b, other, depth);
        assert(rest_other.take(total - used) =~= rest.take(total - used)) by {
            assert forall|i: int| 0 <= i < total - used implies rest_other[i] == rest[i] by {}
        }
        lemma_parse_items_local(rest, rest_other, (count - 1) as nat, depth);
    }
}

/// Malformed input stays malformed: no bytes that arrive later turn it
/// into a frame, so a connection that sent it need not be read again.
pub proof fn lemma_malformed_is_final(b: Seq<u8>, more: Seq<u8>, depth: nat)
    requires
        parse_frame(b, depth) == Err::<(FrameView, nat), RespError>(RespError::Malformed),
    ensures
        parse_frame(b + more, depth) == Err::<(FrameView, nat), RespError>(RespError::Malformed),
    decreases depth, 0nat,
{
    let longer = b + more;
    lemma_first_crlf(b, 1);
    if b[0] == SIMPLE_STRING_PREFIX || b[0] == SIMPLE_ERROR_PREFIX {
    } else if b[0] == BULK_STRING_PREFIX {
        lemma_header_local(b, longer);
        if let Header::Count { count, used } = parse_header(b) {
            let end = used as int + count;
        }
    } else if b[0] == NULL_PREFIX {
    } else if b[0] == ARRAY_PREFIX {
        lemma_header_local(b, longer);
        if let Header::Count { count, used } = parse_header(b) {
            if depth > 0 {
                assert(longer.skip(used as int) =~= b.skip(used as int) + more);
                lemma_malformed_items_are_final(
                    b.skip(used as int),
                    more,
                    count,
                    (depth - 1) as nat,
                );
            }
        }
    }
}

/// A run of frames that is malformed stays malformed.
proof fn lemma_malformed_items_are_final(b: Seq<u8>, more: Seq<u8>, count: nat, depth: nat)
    requires
        parse_items(b, count, depth) == Err::<(Seq<FrameView>, nat), RespError>(
            RespError::Malformed,
        ),
    ensures
        parse_items(b + more, count, depth) == Err::<(Seq<FrameView>, nat), RespError>(
            RespError::Malformed,
        ),
    decreases depth, count + 1,
{
    let longer = b + more;
    match parse_frame(b, depth) {
        Err(_) => {
            lemma_malformed_is_final(b, more, depth);
        },
        Ok((_, used)) => {
            lemma_parse_bounds(b, depth);
            assert(longer.take(used as int) =~= b.take(used as int));
            lemma_parse_local(b, longer, depth);
            assert(longer.skip(used as int) =~= b.skip(used as int) + more);
            lemma_malformed_items_are_final(b.skip(used as int), more, (count - 1) as nat, depth);
        },
    }
}

/// Round trip: decoding the bytes of a frame yields that frame and
/// consumes all of them.
pub proof fn lemma_roundtrip(v: FrameView)
    requires
        decodable(v),
    ensures
        parse_frame(spec_encode(v), MAX_DEPTH as nat) == Ok::<(FrameView, nat), RespError>(
            (v, spec_encode(v).len()),
        ),
{
    lemma_parse_encoded(v, Seq::empty(), MAX_DEPTH as nat);
}

/// Partial buffers: decoding any strict prefix of the bytes of a frame
/// reports `NotComplete`.
pub proof fn lemma_partial_buffer(v: FrameView, k: int)
    requires
        decodable(v),
        0 <= k < spec_encode(v).len(),
    ensures
        parse_frame(spec_encode(v).take(k), MAX_DEPTH as nat) == Err::<
            (FrameView, nat),
            RespError,
        >(RespError::NotComplete),
{
    lemma_parse_partial(v, k, MAX_DEPTH as nat);
}

/// Pipelining: of two frames sent back to back, the first decode yields
/// the first frame and consumes only its bytes, and a decode of what is
/// left yields the second and consumes the rest. Bytes after a frame do not
/// change how it decodes.
pub proof fn lemma_pipelining(first: FrameView, second: FrameView, tail: Seq<u8>)
    requires
        decodable(first),
        decodable(second),
    ensures
        ({
            let stream = spec_encode(first) + spec_encode(second) + tail;
            let left = stream.skip(spec_encode(first).len() as int);
            &&& parse_frame(stream, MAX_DEPTH as nat) == Ok::<(FrameView, nat), RespError>(
                (first, spec_encode(first).len()),
            )
            &&& parse_frame(left, MAX_DEPTH as nat) == Ok::<(FrameView, nat), RespError>(
                (second, spec_encode(second).len()),
            )
            &&& left.skip(spec_encode(second).len() as int) == tail
        }),
{
    let stream = spec_encode(first) + spec_encode(second) + tail;
    let left = stream.skip(spec_encode(first).len() as int);
    assert(stream =~= spec_encode(first) + (spec_encode(second) + tail));
    lemma_parse_encoded(first, spec_encode(second) + tail, MAX_DEPTH as nat);
    assert(left =~= spec_encode(second) + tail);
    lemma_parse_encoded(second, tail, MAX_DEPTH as nat);
}

} // verus!
