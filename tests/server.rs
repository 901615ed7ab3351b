use proglog::decimal::{parse_offset, push_decimal};
use proglog::json::frame_record;
use proglog::path::segments;
use proglog::router::{handle, post_record, record_response, route, Method, Route};
use proglog::{Log, Record};

fn body_text(body: &[u8]) -> String {
    String::from_utf8(body.to_vec()).unwrap()
}

#[test]
fn json_into_record() {
    let data = r#"{"message": "foo"}"#;
    let mut log = Log::new();
    post_record(&mut log, data.as_bytes());
    let r = log.read(0).unwrap();
    assert_eq!(String::from_utf8(r.message).unwrap(), "foo");
}

#[test]
fn create_record() {
    let data = r#"{"message": "foobar"}"#;
    let mut log = Log::new();
    let res = post_record(&mut log, data.as_bytes());
    assert_eq!(res.status, 200);
    assert_eq!(body_text(&res.body), "{\"message\":\"foobar\",\"offset\":0}");
}

#[test]
fn get_record() {
    let mut log = Log::new();
    for _ in 0..3 {
        log.append(Record::new(b"foobar".to_vec()));
    }
    assert_eq!(log.size(), 3);

    let res = handle(&mut log, Method::Get, b"/records/1", b"");
    assert_eq!(res.status, 200);
    assert_eq!(body_text(&res.body), "{\"message\":\"foobar\",\"offset\":1}");
    let direct = proglog::router::get_record(&log, 1);
    assert_eq!(direct.body, res.body);
}

#[test]
fn round_trip() {
    let mut log = Log::new();
    let r = handle(&mut log, Method::Post, b"/records", br#"{"message":"foo"}"#);
    assert_eq!(r.status, 200);
    assert_eq!(body_text(&r.body), r#"{"message":"foo","offset":0}"#);
    let r = handle(&mut log, Method::Post, b"/records", br#"{"message":"bar"}"#);
    assert_eq!(r.status, 200);
    assert_eq!(body_text(&r.body), r#"{"message":"bar","offset":1}"#);
    let r = handle(&mut log, Method::Get, b"/records/0", b"");
    assert_eq!(r.status, 200);
    assert_eq!(body_text(&r.body), r#"{"message":"foo","offset":0}"#);
    let r = handle(&mut log, Method::Get, b"/records/5", b"");
    assert_eq!(r.status, 404);
    assert_eq!(body_text(&r.body), "Not Found");
    assert_eq!(log.size(), 2);
}

#[test]
fn routing_miss() {
    let mut log = Log::new();
    let r = handle(&mut log, Method::Get, b"/unknown", b"");
    assert_eq!(r.status, 404);
    assert_eq!(body_text(&r.body), "Not Found");
    let r = handle(&mut log, Method::Other, b"/records", br#"{"message":"foo"}"#);
    assert_eq!(r.status, 404);
    let r = handle(&mut log, Method::Get, b"/records", b"");
    assert_eq!(r.status, 404);
    let r = handle(&mut log, Method::Post, b"/records/0", br#"{"message":"foo"}"#);
    assert_eq!(r.status, 404);
    assert_eq!(log.size(), 0);
}

#[test]
fn malformed_body_is_bad_request() {
    let mut log = Log::new();
    let r = handle(&mut log, Method::Post, b"/records", b"not json");
    assert_eq!(r.status, 400);
    assert_eq!(body_text(&r.body), "Bad Request");
    let r = handle(&mut log, Method::Post, b"/records", br#"{"message": 5}"#);
    assert_eq!(r.status, 400);
    let r = handle(&mut log, Method::Post, b"/records", br#"{"other":"x"}"#);
    assert_eq!(r.status, 400);
    assert_eq!(log.size(), 0);
}

#[test]
fn non_numeric_offset_is_bad_request() {
    let mut log = Log::new();
    log.append(Record::new(b"a".to_vec()));
    assert_eq!(handle(&mut log, Method::Get, b"/records/abc", b"").status, 400);
    assert_eq!(handle(&mut log, Method::Get, b"/records/-1", b"").status, 400);
    assert_eq!(handle(&mut log, Method::Get, b"/records/+", b"").status, 400);
    assert_eq!(handle(&mut log, Method::Get, b"/records/++0", b"").status, 400);
}

#[test]
fn path_is_normalised() {
    assert_eq!(route(Method::Post, b"//records/"), Route::Append);
    assert_eq!(route(Method::Post, b"/./records"), Route::Append);
    assert_eq!(route(Method::Get, b"/x/../records/7"), Route::Read(7));
    assert_eq!(route(Method::Get, b"/../records/./12/"), Route::Read(12));
    assert_eq!(route(Method::Get, b"/records/3/.."), Route::NotFound);
    assert_eq!(route(Method::Get, b"/records/x"), Route::BadOffset);
    assert_eq!(route(Method::Get, b"/records/+3"), Route::Read(3));
    assert_eq!(route(Method::Other, b"/records/1"), Route::NotFound);
}

#[test]
fn segments_split_and_resolve() {
    let s = segments(b"/a//b/./c/../d");
    assert_eq!(s, vec![b"a".to_vec(), b"b".to_vec(), b"d".to_vec()]);
    assert!(segments(b"").is_empty());
    assert!(segments(b"/../..").is_empty());
    assert_eq!(segments(b"..a/...").len(), 2);
}

#[test]
fn offsets_parse_in_range() {
    assert_eq!(parse_offset(b"0"), Some(0));
    assert_eq!(parse_offset(b"007"), Some(7));
    assert_eq!(parse_offset(b"18446744073709551615"), Some(u64::MAX));
    assert_eq!(parse_offset(b"18446744073709551616"), None);
    assert_eq!(parse_offset(b""), None);
    assert_eq!(parse_offset(b"1a"), None);
    assert_eq!(parse_offset(b"+12"), Some(12));
    assert_eq!(parse_offset(b"+"), None);
    assert_eq!(parse_offset(b"-1"), None);
    assert_eq!(parse_offset(b"1+"), None);
}

#[test]
fn decimal_spelling() {
    let mut out = b"x".to_vec();
    push_decimal(&mut out, 0);
    push_decimal(&mut out, 1234567890);
    assert_eq!(out, b"x01234567890".to_vec());
    let mut max = Vec::new();
    push_decimal(&mut max, u64::MAX);
    assert_eq!(max, b"18446744073709551615".to_vec());
}

#[test]
fn record_framing() {
    assert_eq!(frame_record(b"\"hi\"", 42), br#"{"message":"hi","offset":42}"#.to_vec());
}

#[test]
fn message_is_escaped() {
    let mut log = Log::new();
    let r = handle(&mut log, Method::Post, b"/records", br#"{"message":"a\"b\\c\n"}"#);
    assert_eq!(r.status, 200);
    assert_eq!(body_text(&r.body), r#"{"message":"a\"b\\c\n","offset":0}"#);
    assert_eq!(log.read(0).unwrap().message, b"a\"b\\c\n".to_vec());
}

#[test]
fn unicode_message_round_trips() {
    let mut log = Log::new();
    let r = handle(&mut log, Method::Post, b"/records", "{\"message\":\"h\u{e9}\u{1f600}\"}".as_bytes());
    assert_eq!(r.status, 200);
    assert_eq!(log.read(0).unwrap().message, "h\u{e9}\u{1f600}".as_bytes().to_vec());
}

#[test]
fn non_utf8_record_is_bad_request() {
    let rec = Record::new(vec![0xff, 0xfe]);
    let r = record_response(&rec);
    assert_eq!(r.status, 400);
    assert_eq!(body_text(&r.body), "Bad Request");
    let mut log = Log::new();
    log.append(Record::new(vec![0xc3]));
    assert_eq!(handle(&mut log, Method::Get, b"/records/0", b"").status, 400);
}

#[test]
fn plus_signed_offset_reads() {
    let mut log = Log::new();
    log.append(Record::new(b"a".to_vec()));
    let r = handle(&mut log, Method::Get, b"/records/+0", b"");
    assert_eq!(r.status, 200);
    assert_eq!(body_text(&r.body), r#"{"message":"a","offset":0}"#);
}

#[test]
fn stored_record_reply() {
    let r = record_response(&Record { message: b"hi".to_vec(), offset: 9 });
    assert_eq!(r.status, 200);
    assert_eq!(body_text(&r.body), r#"{"message":"hi","offset":9}"#);
}

#[test]
fn control_bytes_are_escaped() {
    let mut log = Log::new();
    log.append(Record::new(b"\x01\x08\x09\x0c\x0d\x1f/\x7f".to_vec()));
    log.append(Record::new("\u{e9}".as_bytes().to_vec()));
    let r = handle(&mut log, Method::Get, b"/records/0", b"");
    assert_eq!(r.status, 200);
    assert_eq!(
        r.body,
        b"{\"message\":\"\\u0001\\b\\t\\f\\r\\u001f/\x7f\",\"offset\":0}".to_vec()
    );
    let r = handle(&mut log, Method::Get, b"/records/1", b"");
    assert_eq!(body_text(&r.body), "{\"message\":\"\u{e9}\",\"offset\":1}");
}
