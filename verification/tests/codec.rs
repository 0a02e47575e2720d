use bytes::{BufMut, BytesMut};
use simple_redis::resp::wire::MAX_DEPTH;
use simple_redis::{
    BulkString, RespArray, RespError, RespFrame, RespNull, RespNullArray, RespNullBulkString,
    SimpleError, SimpleString,
};

fn buffer(bytes: &[u8]) -> BytesMut {
    let mut buf = BytesMut::new();
    buf.extend_from_slice(bytes);
    buf
}

fn bulk(bytes: &[u8]) -> RespFrame {
    RespFrame::BulkString(BulkString::new(bytes.to_vec()))
}

fn simple(text: &str) -> RespFrame {
    RespFrame::SimpleString(SimpleString::new(text.to_string()))
}

fn sample_frames() -> Vec<RespFrame> {
    vec![
        simple("OK"),
        simple(""),
        simple("caf\u{e9} \u{1f980}"),
        simple("ends with a return\r"),
        RespFrame::Error(SimpleError::new("ERR boom".to_string())),
        bulk(b""),
        bulk(b"hello"),
        bulk(b"binary\r\n\x00\xff safe"),
        bulk(&[7u8; 300]),
        RespFrame::NullBulkString(RespNullBulkString),
        RespFrame::NullArray(RespNullArray),
        RespFrame::Null(RespNull),
        RespFrame::Array(RespArray::new(vec![])),
        RespFrame::Array(RespArray::new(vec![bulk(b"get"), bulk(b"hello")])),
        RespFrame::Array(RespArray::new(vec![
            simple("a"),
            RespFrame::Array(RespArray::new(vec![
                RespFrame::Null(RespNull),
                RespFrame::Array(RespArray::new(vec![bulk(b"deep")])),
                RespFrame::NullArray(RespNullArray),
            ])),
            RespFrame::NullBulkString(RespNullBulkString),
            bulk(b"tail"),
        ])),
    ]
}

fn nested(levels: usize) -> RespFrame {
    let mut frame = RespFrame::Null(RespNull);
    for _ in 0..levels {
        frame = RespFrame::Array(RespArray::new(vec![frame]));
    }
    frame
}

#[test]
fn test_simple_string_decode() {
    let mut buf = BytesMut::new();
    buf.extend_from_slice(b"+OK\r\n");

    let frame = SimpleString::decode(&mut buf).unwrap();
    assert_eq!(frame, SimpleString::new("OK".to_string()));

    println!("after 1st decode:{}", buf.len());
    buf.extend_from_slice(b"+hello\r");
    println!("before 2rd decode:{}", buf.len());
    let ret = SimpleString::decode(&mut buf);
    assert_eq!(ret.unwrap_err(), RespError::NotComplete);

    buf.put_u8(b'\n');
    let frame = SimpleString::decode(&mut buf).unwrap();
    assert_eq!(frame, SimpleString::new("hello".to_string()));
}

#[test]
fn test_simple_string_encode() {
    let frame: RespFrame = SimpleString::new("OK".to_string()).into();
    assert_eq!(frame.encode(), b"+OK\r\n");
}

#[test]
fn test_simple_error_decode() {
    let mut buf = BytesMut::new();
    buf.extend_from_slice(b"-Error message\r\n");

    let frame = SimpleError::decode(&mut buf).unwrap();
    assert_eq!(frame, SimpleError::new("Error message".to_string()));
}

#[test]
fn test_simple_error_encode() {
    let frame: RespFrame = SimpleError::new("ErrorMsg".to_string()).into();
    assert_eq!(frame.encode(), b"-ErrorMsg\r\n");
}

#[test]
fn encode_gives_the_canonical_bytes_of_each_kind() {
    assert_eq!(simple("OK").encode(), b"+OK\r\n");
    assert_eq!(
        RespFrame::Error(SimpleError::new("ERR x".to_string())).encode(),
        b"-ERR x\r\n"
    );
    assert_eq!(bulk(b"hello").encode(), b"$5\r\nhello\r\n");
    assert_eq!(bulk(b"").encode(), b"$0\r\n\r\n");
    assert_eq!(bulk(b"0123456789ab").encode(), b"$12\r\n0123456789ab\r\n");
    assert_eq!(
        RespFrame::NullBulkString(RespNullBulkString).encode(),
        b"$-1\r\n"
    );
    assert_eq!(RespFrame::NullArray(RespNullArray).encode(), b"*-1\r\n");
    assert_eq!(RespFrame::Null(RespNull).encode(), b"_\r\n");
    assert_eq!(RespFrame::Array(RespArray::new(vec![])).encode(), b"*0\r\n");
    assert_eq!(
        RespFrame::Array(RespArray::new(vec![bulk(b"get"), bulk(b"hello")])).encode(),
        b"*2\r\n$3\r\nget\r\n$5\r\nhello\r\n"
    );
}

#[test]
fn typed_encoders_agree_with_the_frame() {
    assert_eq!(SimpleString::new("OK".to_string()).encode(), b"+OK\r\n");
    assert_eq!(SimpleError::new("bad".to_string()).encode(), b"-bad\r\n");
    assert_eq!(BulkString::new(b"ab".to_vec()).encode(), b"$2\r\nab\r\n");
    assert_eq!(RespNullBulkString.encode(), b"$-1\r\n");
    assert_eq!(RespNullArray.encode(), b"*-1\r\n");
    assert_eq!(RespNull.encode(), b"_\r\n");
    assert_eq!(
        RespArray::new(vec![simple("a"), RespFrame::Null(RespNull)]).encode(),
        b"*2\r\n+a\r\n_\r\n"
    );
}

#[test]
fn a_length_of_many_digits_is_written_in_full() {
    let frame = bulk(&vec![b'x'; 1234]);
    let bytes = frame.encode();
    assert_eq!(&bytes[..7], b"$1234\r\n");
    assert_eq!(bytes.len(), 7 + 1234 + 2);
}

#[test]
fn round_trip_gives_the_frame_and_empties_the_buffer() {
    for frame in sample_frames() {
        let bytes = frame.clone().encode();
        let (parsed, used) = RespFrame::parse(&bytes).unwrap();
        assert_eq!(parsed, frame);
        assert_eq!(used, bytes.len());

        let mut buf = buffer(&bytes);
        assert_eq!(RespFrame::decode(&mut buf).unwrap(), frame);
        assert!(buf.is_empty());
        assert_eq!(frame.encode(), bytes);
    }
}

#[test]
fn every_strict_prefix_is_not_complete() {
    for frame in sample_frames() {
        let bytes = frame.encode();
        for cut in 0..bytes.len() {
            assert_eq!(
                RespFrame::parse(&bytes[..cut]).unwrap_err(),
                RespError::NotComplete
            );
            let mut buf = buffer(&bytes[..cut]);
            assert_eq!(
                RespFrame::decode(&mut buf).unwrap_err(),
                RespError::NotComplete
            );
            assert_eq!(&buf[..], &bytes[..cut]);
        }
    }
}

#[test]
fn pipelined_frames_come_out_one_by_one() {
    let frames = sample_frames();
    for first in &frames {
        for second in &frames {
            let a = first.clone().encode();
            let b = second.clone().encode();
            let mut buf = buffer(&a);
            buf.extend_from_slice(&b);

            assert_eq!(&RespFrame::decode(&mut buf).unwrap(), first);
            assert_eq!(&buf[..], &b[..]);
            assert_eq!(&RespFrame::decode(&mut buf).unwrap(), second);
            assert!(buf.is_empty());
            assert_eq!(
                RespFrame::decode(&mut buf).unwrap_err(),
                RespError::NotComplete
            );
        }
    }
}

#[test]
fn a_frame_followed_by_a_partial_one_decodes_and_then_waits() {
    let mut buf = buffer(b"$5\r\nhello\r\n*2\r\n$3\r\nget\r\n$5\r\nhel");
    assert_eq!(RespFrame::decode(&mut buf).unwrap(), bulk(b"hello"));
    assert_eq!(&buf[..], b"*2\r\n$3\r\nget\r\n$5\r\nhel");
    assert_eq!(
        RespFrame::decode(&mut buf).unwrap_err(),
        RespError::NotComplete
    );
    assert_eq!(&buf[..], b"*2\r\n$3\r\nget\r\n$5\r\nhel");
    buf.extend_from_slice(b"lo\r\n");
    assert_eq!(
        RespFrame::decode(&mut buf).unwrap(),
        RespFrame::Array(RespArray::new(vec![bulk(b"get"), bulk(b"hello")]))
    );
    assert!(buf.is_empty());
}

#[test]
fn parse_reports_the_bytes_of_the_first_frame_only() {
    let (frame, used) = RespFrame::parse(b"+OK\r\n+NEXT\r\n").unwrap();
    assert_eq!(frame, simple("OK"));
    assert_eq!(used, 5);
    let (frame, used) = RespFrame::parse(b"*1\r\n$2\r\nhi\r\ntrailing").unwrap();
    assert_eq!(frame, RespFrame::Array(RespArray::new(vec![bulk(b"hi")])));
    assert_eq!(used, 12);
}

#[test]
fn an_empty_buffer_is_not_complete() {
    assert_eq!(RespFrame::parse(b"").unwrap_err(), RespError::NotComplete);
    assert_eq!(SimpleString::decode(&mut BytesMut::new()).unwrap_err(), RespError::NotComplete);
    assert_eq!(RespArray::decode(&mut BytesMut::new()).unwrap_err(), RespError::NotComplete);
}

#[test]
fn an_unknown_prefix_is_malformed() {
    for bytes in [&b"hello\r\n"[..], b"!", b":1\r\n", b"\r\n"] {
        assert_eq!(RespFrame::parse(bytes).unwrap_err(), RespError::Malformed);
        let mut buf = buffer(bytes);
        assert_eq!(RespFrame::decode(&mut buf).unwrap_err(), RespError::Malformed);
        assert_eq!(&buf[..], bytes);
    }
}

#[test]
fn a_line_ends_at_the_first_terminator() {
    let (frame, used) = RespFrame::parse(b"+a\rb\r\nc\r\n").unwrap();
    assert_eq!(frame, simple("a\rb"));
    assert_eq!(used, 6);
    let (frame, used) = RespFrame::parse(b"+\r\n").unwrap();
    assert_eq!(frame, simple(""));
    assert_eq!(used, 3);
    let (frame, used) = RespFrame::parse(b"-\n\r\r\n").unwrap();
    assert_eq!(frame, RespFrame::Error(SimpleError::new("\n\r".to_string())));
    assert_eq!(used, 5);
}

#[test]
fn invalid_text_is_repaired_not_rejected() {
    let (frame, used) = RespFrame::parse(b"+a\xffb\r\n").unwrap();
    assert_eq!(frame, simple("a\u{fffd}b"));
    assert_eq!(used, 6);
    let mut buf = buffer(b"-\xc3\r\nrest");
    assert_eq!(
        SimpleError::decode(&mut buf).unwrap(),
        SimpleError::new("\u{fffd}".to_string())
    );
    assert_eq!(&buf[..], b"rest");
}

#[test]
fn valid_text_is_decoded_as_it_is() {
    let mut buf = buffer("+caf\u{e9} \u{1f980}\r\n".as_bytes());
    assert_eq!(
        SimpleString::decode(&mut buf).unwrap(),
        SimpleString::new("caf\u{e9} \u{1f980}".to_string())
    );
}

#[test]
fn bulk_string_headers() {
    assert_eq!(RespFrame::parse(b"$-1\r\n").unwrap(), (RespFrame::NullBulkString(RespNullBulkString), 5));
    assert_eq!(RespFrame::parse(b"$0\r\n\r\n").unwrap(), (bulk(b""), 6));
    assert_eq!(RespFrame::parse(b"$005\r\nhello\r\n").unwrap(), (bulk(b"hello"), 13));
    for bytes in [
        &b"$-2\r\n"[..],
        b"$-10\r\n",
        b"$-01\r\n",
        b"$-0\r\n",
        b"$\r\n",
        b"$+5\r\nhello\r\n",
        b"$5x\r\nhello\r\n",
        b"$ 5\r\nhello\r\n",
        b"$abc\r\n",
        b"$99999999999999999999999999\r\n",
        b"$18446744073709551616\r\n",
    ] {
        assert_eq!(RespFrame::parse(bytes).unwrap_err(), RespError::Malformed);
    }
    for bytes in [&b"$"[..], b"$5", b"$5\r", b"$-", b"$-1", b"$-1\r", b"$abc"] {
        assert_eq!(RespFrame::parse(bytes).unwrap_err(), RespError::NotComplete);
    }
}

#[test]
fn a_length_that_no_buffer_can_hold_is_malformed() {
    let text = format!("${}\r\n", usize::MAX);
    assert_eq!(RespFrame::parse(text.as_bytes()).unwrap_err(), RespError::Malformed);
    let text = format!("${}\r\n", usize::MAX - 30);
    assert_eq!(RespFrame::parse(text.as_bytes()).unwrap_err(), RespError::NotComplete);
}

#[test]
fn bulk_string_body() {
    assert_eq!(RespFrame::parse(b"$5\r\nhell").unwrap_err(), RespError::NotComplete);
    assert_eq!(RespFrame::parse(b"$5\r\nhello").unwrap_err(), RespError::NotComplete);
    assert_eq!(RespFrame::parse(b"$5\r\nhello\r").unwrap_err(), RespError::NotComplete);
    assert_eq!(RespFrame::parse(b"$5\r\nhelloX").unwrap_err(), RespError::NotComplete);
    assert_eq!(RespFrame::parse(b"$5\r\nhelloXY").unwrap_err(), RespError::Malformed);
    assert_eq!(RespFrame::parse(b"$5\r\nhello\n\r").unwrap_err(), RespError::Malformed);
    assert_eq!(RespFrame::parse(b"$5\r\nhello world\r\n").unwrap_err(), RespError::Malformed);
    assert_eq!(RespFrame::parse(b"$4\r\na\r\nb\r\n").unwrap(), (bulk(b"a\r\nb"), 10));
}

#[test]
fn null_frame() {
    assert_eq!(RespFrame::parse(b"_\r\n").unwrap(), (RespFrame::Null(RespNull), 3));
    assert_eq!(RespFrame::parse(b"_\r\n_").unwrap(), (RespFrame::Null(RespNull), 3));
    assert_eq!(RespFrame::parse(b"_").unwrap_err(), RespError::NotComplete);
    assert_eq!(RespFrame::parse(b"_\r").unwrap_err(), RespError::NotComplete);
    assert_eq!(RespFrame::parse(b"_x").unwrap_err(), RespError::NotComplete);
    assert_eq!(RespFrame::parse(b"_xy").unwrap_err(), RespError::Malformed);
    assert_eq!(RespFrame::parse(b"_\n\r").unwrap_err(), RespError::Malformed);
    let mut buf = buffer(b"_\r\n+");
    assert_eq!(RespNull::decode(&mut buf).unwrap(), RespNull);
    assert_eq!(&buf[..], b"+");
}

#[test]
fn array_headers_and_elements() {
    assert_eq!(RespFrame::parse(b"*-1\r\n").unwrap(), (RespFrame::NullArray(RespNullArray), 5));
    assert_eq!(RespFrame::parse(b"*0\r\n").unwrap(), (RespFrame::Array(RespArray::new(vec![])), 4));
    assert_eq!(
        RespFrame::parse(b"*3\r\n+a\r\n_\r\n$-1\r\n").unwrap(),
        (
            RespFrame::Array(RespArray::new(vec![
                simple("a"),
                RespFrame::Null(RespNull),
                RespFrame::NullBulkString(RespNullBulkString),
            ])),
            16
        )
    );
    assert_eq!(RespFrame::parse(b"*-2\r\n").unwrap_err(), RespError::Malformed);
    assert_eq!(RespFrame::parse(b"*x\r\n").unwrap_err(), RespError::Malformed);
    assert_eq!(RespFrame::parse(b"*2\r\n+a\r\n").unwrap_err(), RespError::NotComplete);
    assert_eq!(RespFrame::parse(b"*2\r\n+a\r\n?").unwrap_err(), RespError::Malformed);
    assert_eq!(RespFrame::parse(b"*2\r\n$-7\r\n").unwrap_err(), RespError::Malformed);
    assert_eq!(
        RespFrame::parse(b"*18446744073709551615\r\n").unwrap_err(),
        RespError::NotComplete
    );
}

#[test]
fn an_incomplete_array_consumes_nothing() {
    let bytes = b"*3\r\n$3\r\nset\r\n$5\r\nhello\r\n$5\r\nwor";
    let mut buf = buffer(bytes);
    assert_eq!(RespFrame::decode(&mut buf).unwrap_err(), RespError::NotComplete);
    assert_eq!(&buf[..], &bytes[..]);
    assert_eq!(RespArray::decode(&mut buf).unwrap_err(), RespError::NotComplete);
    assert_eq!(&buf[..], &bytes[..]);
    buf.extend_from_slice(b"ld\r\n+next\r\n");
    let array = RespArray::decode(&mut buf).unwrap();
    assert_eq!(array, RespArray::new(vec![bulk(b"set"), bulk(b"hello"), bulk(b"world")]));
    assert_eq!(&buf[..], b"+next\r\n");
}

#[test]
fn arrays_nest_up_to_the_limit() {
    assert_eq!(MAX_DEPTH, 32);
    let deepest = nested(MAX_DEPTH);
    let bytes = deepest.clone().encode();
    assert_eq!(RespFrame::parse(&bytes).unwrap(), (deepest, bytes.len()));

    let too_deep = nested(MAX_DEPTH + 1).encode();
    assert_eq!(RespFrame::parse(&too_deep).unwrap_err(), RespError::Malformed);
    let mut buf = buffer(&too_deep);
    assert_eq!(RespFrame::decode(&mut buf).unwrap_err(), RespError::Malformed);
    assert_eq!(&buf[..], &too_deep[..]);
}

#[test]
fn parse_within_counts_nesting() {
    assert_eq!(RespFrame::parse_within(b"+a\r\n", 0).unwrap(), (simple("a"), 4));
    assert_eq!(
        RespFrame::parse_within(b"*-1\r\n", 0).unwrap(),
        (RespFrame::NullArray(RespNullArray), 5)
    );
    assert_eq!(RespFrame::parse_within(b"*0\r\n", 0).unwrap_err(), RespError::Malformed);
    assert_eq!(RespFrame::parse_within(b"*0", 0).unwrap_err(), RespError::NotComplete);
    assert_eq!(
        RespFrame::parse_within(b"*1\r\n*0\r\n", 1).unwrap_err(),
        RespError::Malformed
    );
    assert_eq!(
        RespFrame::parse_within(b"*1\r\n*0\r\n", 2).unwrap(),
        (nested_empty(), 8)
    );
}

fn nested_empty() -> RespFrame {
    RespFrame::Array(RespArray::new(vec![RespFrame::Array(RespArray::new(vec![]))]))
}

#[test]
fn typed_decoders_take_only_their_own_kind() {
    let mut buf = buffer(b"-oops\r\n");
    assert_eq!(SimpleString::decode(&mut buf).unwrap_err(), RespError::Malformed);
    assert_eq!(&buf[..], b"-oops\r\n");
    assert_eq!(SimpleError::decode(&mut buf).unwrap(), SimpleError::new("oops".to_string()));
    assert!(buf.is_empty());

    let mut buf = buffer(b"$-1\r\n");
    assert_eq!(BulkString::decode(&mut buf).unwrap_err(), RespError::Malformed);
    assert_eq!(&buf[..], b"$-1\r\n");
    assert_eq!(RespNullBulkString::decode(&mut buf).unwrap(), RespNullBulkString);
    assert!(buf.is_empty());

    let mut buf = buffer(b"$2\r\nhi\r\n");
    assert_eq!(RespNullBulkString::decode(&mut buf).unwrap_err(), RespError::Malformed);
    assert_eq!(BulkString::decode(&mut buf).unwrap(), BulkString::new(b"hi".to_vec()));

    let mut buf = buffer(b"*-1\r\n");
    assert_eq!(RespArray::decode(&mut buf).unwrap_err(), RespError::Malformed);
    assert_eq!(&buf[..], b"*-1\r\n");
    assert_eq!(RespNullArray::decode(&mut buf).unwrap(), RespNullArray);

    let mut buf = buffer(b"*1\r\n_\r\n");
    assert_eq!(RespNullArray::decode(&mut buf).unwrap_err(), RespError::Malformed);
    assert_eq!(RespNull::decode(&mut buf).unwrap_err(), RespError::Malformed);
    assert_eq!(
        RespArray::decode(&mut buf).unwrap(),
        RespArray::new(vec![RespFrame::Null(RespNull)])
    );

    let mut buf = buffer(b"$2\r\nh");
    assert_eq!(BulkString::decode(&mut buf).unwrap_err(), RespError::NotComplete);
    assert_eq!(RespNullBulkString::decode(&mut buf).unwrap_err(), RespError::NotComplete);
}

#[test]
fn simple_frames_say_how_long_they_will_be() {
    assert_eq!(SimpleString::expect_length(b"+OK\r\n").unwrap(), 5);
    assert_eq!(SimpleString::expect_length(b"+OK\r\n+more").unwrap(), 5);
    assert_eq!(SimpleString::expect_length(b"+OK\r").unwrap_err(), RespError::NotComplete);
    assert_eq!(SimpleString::expect_length(b"").unwrap_err(), RespError::NotComplete);
    assert_eq!(SimpleString::expect_length(b"-OK\r\n").unwrap_err(), RespError::Malformed);
    assert_eq!(SimpleError::expect_length(b"-Error message\r\n").unwrap(), 16);
    assert_eq!(SimpleError::expect_length(b"-Error").unwrap_err(), RespError::NotComplete);
    assert_eq!(SimpleError::expect_length(b"+OK\r\n").unwrap_err(), RespError::Malformed);
}

#[test]
fn wire_safety_is_about_line_terminators_only() {
    assert!(SimpleString::new("OK".to_string()).is_wire_safe());
    assert!(SimpleString::new("".to_string()).is_wire_safe());
    assert!(SimpleString::new("a\rb\nc".to_string()).is_wire_safe());
    assert!(SimpleString::new("tail\r".to_string()).is_wire_safe());
    assert!(!SimpleString::new("a\r\nb".to_string()).is_wire_safe());
    assert!(!SimpleError::new("\r\n".to_string()).is_wire_safe());
    assert!(SimpleError::new("\n\r".to_string()).is_wire_safe());

    let unsafe_frame = simple("a\r\n+b");
    let bytes = unsafe_frame.clone().encode();
    let (parsed, used) = RespFrame::parse(&bytes).unwrap();
    assert_eq!(parsed, simple("a"));
    assert_eq!(used, 4);
}

#[test]
fn conversions_keep_the_contents() {
    assert_eq!(SimpleString::from("OK"), SimpleString::new("OK".to_string()));
    assert_eq!(SimpleString::from("OK").as_str(), "OK");
    assert_eq!(SimpleError::from("bad"), SimpleError::new("bad".to_string()));
    assert_eq!(BulkString::from(b"world"), BulkString::new(b"world".to_vec()));
    assert_eq!(BulkString::from(&b"world"[..]), BulkString::new(b"world".to_vec()));
    assert_eq!(BulkString::from("caf\u{e9}"), BulkString::new(vec![99, 97, 102, 0xc3, 0xa9]));
    let frame: RespFrame = BulkString::from(b"x").into();
    assert_eq!(frame, bulk(b"x"));
    let frame: RespFrame = RespNull.into();
    assert_eq!(frame, RespFrame::Null(RespNull));
    let frame: RespFrame = RespArray::new(vec![]).into();
    assert_eq!(frame, RespFrame::Array(RespArray::new(vec![])));
    assert_eq!(RespArray::new(vec![simple("a"), simple("b")]).len(), 2);
}

#[test]
fn clones_are_equal_and_independent() {
    for frame in sample_frames() {
        let copy = frame.clone();
        assert_eq!(copy, frame);
        assert_eq!(copy.encode(), frame.encode());
    }
}

#[test]
fn frames_say_how_long_they_will_be() {
    for frame in sample_frames() {
        let bytes = frame.encode();
        assert_eq!(RespFrame::expect_length(&bytes).unwrap(), bytes.len());
        let mut longer = bytes.clone();
        longer.extend_from_slice(b"+more\r\n");
        assert_eq!(RespFrame::expect_length(&longer).unwrap(), bytes.len());
    }
}

#[test]
fn a_bulk_string_tells_its_length_before_it_has_arrived() {
    assert_eq!(RespFrame::expect_length(b"$5\r\n").unwrap(), 11);
    assert_eq!(RespFrame::expect_length(b"$5\r\nhel").unwrap(), 11);
    assert_eq!(RespFrame::expect_length(b"$5\r\nhelloXY").unwrap(), 11);
    assert_eq!(RespFrame::expect_length(b"$-1\r\n").unwrap(), 5);
    assert_eq!(RespFrame::expect_length(b"$5\r").unwrap_err(), RespError::NotComplete);
    assert_eq!(RespFrame::expect_length(b"$x\r\n").unwrap_err(), RespError::Malformed);
    let text = format!("${}\r\n", usize::MAX - 2);
    assert_eq!(RespFrame::expect_length(text.as_bytes()).unwrap_err(), RespError::Malformed);
    let text = format!("${}\r\n", usize::MAX - 30);
    assert_eq!(
        RespFrame::expect_length(text.as_bytes()).unwrap(),
        usize::MAX - 30 + text.len() + 2
    );
}

#[test]
fn an_array_tells_its_length_once_its_last_element_does() {
    assert_eq!(RespFrame::expect_length(b"*0\r\n").unwrap(), 4);
    assert_eq!(RespFrame::expect_length(b"*-1\r\n").unwrap(), 5);
    assert_eq!(RespFrame::expect_length(b"*2\r\n$3\r\nget\r\n$5\r\n").unwrap(), 24);
    assert_eq!(RespFrame::expect_length(b"*2\r\n$3\r\nget\r\n$5\r\nhello\r\n").unwrap(), 24);
    assert_eq!(
        RespFrame::expect_length(b"*2\r\n$3\r\nget\r\n$5").unwrap_err(),
        RespError::NotComplete
    );
    assert_eq!(
        RespFrame::expect_length(b"*2\r\n$3\r\nge").unwrap_err(),
        RespError::NotComplete
    );
    assert_eq!(
        RespFrame::expect_length(b"*2\r\n$3\r\nget\r\n").unwrap_err(),
        RespError::NotComplete
    );
    assert_eq!(RespFrame::expect_length(b"*1\r\n*1\r\n$7\r\n").unwrap(), 21);
    assert_eq!(
        RespFrame::expect_length(b"*2\r\n+a\r\n!").unwrap_err(),
        RespError::Malformed
    );
    let header = format!("${}\r\n", usize::MAX).len();
    let largest = format!("${}\r\n", usize::MAX - 2 - header);
    assert_eq!(largest.len(), header);
    assert_eq!(RespFrame::expect_length(largest.as_bytes()).unwrap(), usize::MAX);
    let text = format!("*1\r\n{}", largest);
    assert_eq!(RespFrame::expect_length(text.as_bytes()).unwrap_err(), RespError::Malformed);
    let text = format!("*1\r\n${}\r\n", usize::MAX - 6 - header);
    assert_eq!(RespFrame::expect_length(text.as_bytes()).unwrap(), usize::MAX);
    assert_eq!(RespFrame::expect_length_within(b"*0\r\n", 0).unwrap_err(), RespError::Malformed);
    assert_eq!(RespFrame::expect_length_within(b"+a\r\n", 0).unwrap(), 4);
    assert_eq!(RespFrame::expect_length(b"_\r\n").unwrap(), 3);
    assert_eq!(RespFrame::expect_length(b"").unwrap_err(), RespError::NotComplete);
    assert_eq!(RespFrame::expect_length(b"?").unwrap_err(), RespError::Malformed);
}
