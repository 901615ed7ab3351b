use crate::decimal::{parse_offset, parse_offset_spec};
use crate::json::{
    encode_json_string, frame_record, json_message_field, json_string, parse_message_field,
    push_bytes, record_json, utf8_text,
};
use crate::log::{read_spec, Log};
use crate::path::{segments, segments_spec, views};
use crate::record::Record;
use vstd::prelude::*;
use vstd::string::StringSliceAdditionalSpecFns;
use vstd::utf8::{
    decode_utf8, encode_utf8, encode_utf8_decode_utf8, encode_utf8_valid_utf8, valid_utf8,
};

verus! {

/// The request methods the router tells apart.
#[derive(Debug, Clone, Copy, PartialEq, Eq, Structural)]
pub enum Method {
    Get,
    Post,
    Other,
}

/// What a request asks of the log.
#[derive(Debug, Clone, Copy, PartialEq, Eq, Structural)]
pub enum Route {
    /// `POST /records`: append the message in the body.
    Append,
    /// `GET /records/{offset}` with a numeric offset.
    Read(u64),
    /// `GET /records/{offset}` whose offset is not a number.
    BadOffset,
    /// No route matches.
    NotFound,
}

/// A reply: its HTTP status and its body. A `200` body is JSON.
#[derive(Debug)]
pub struct Response {
    pub status: u16,
    pub body: Vec<u8>,
}

pub const STATUS_OK: u16 = 200;

pub const STATUS_BAD_REQUEST: u16 = 400;

pub const STATUS_NOT_FOUND: u16 = 404;

pub const STATUS_INTERNAL_ERROR: u16 = 500;

/// The one resource the router serves: `/records`.
pub const RECORDS: &'static str = "records";

/// The body of every `404`: a missing route and an offset past the end of the
/// log are answered alike.
pub const NOT_FOUND_BODY: &'static str = "Not Found";

/// The body of every `400`: an undecodable request body, a non-numeric
/// offset, or a stored message that is not UTF-8 text.
pub const BAD_REQUEST_BODY: &'static str = "Bad Request";

/// The body of every `500`, for a failure while encoding a reply; it says
/// nothing of what went wrong.
pub const INTERNAL_ERROR_BODY: &'static str = "Internal Server Error";

/// The route of a request with normalised path segments `segs`:
/// `POST /records` appends, `GET /records/{offset}` reads (or is a bad
/// request when the offset is not a number), and anything else is not found.
pub open spec fn route_spec(method: Method, segs: Seq<Seq<u8>>) -> Route {
    if method == Method::Post && segs == seq![RECORDS.spec_bytes()] {
        Route::Append
    } else if method == Method::Get && segs.len() == 2 && segs[0] == RECORDS.spec_bytes() {
        match parse_offset_spec(segs[1]) {
            Some(n) => Route::Read(n),
            None => Route::BadOffset,
        }
    } else {
        Route::NotFound
    }
}

/// `resp` is the fixed reply with `status` and the text `text` as its body.
pub open spec fn is_fixed(resp: Response, status: u16, text: &str) -> bool {
    resp.status == status && resp.body@ == text.spec_bytes()
}

/// `resp` answers `200` with the record `{message, offset}` as JSON.
pub open spec fn is_record_reply(resp: Response, message: Seq<char>, offset: u64) -> bool {
    resp.status == STATUS_OK && resp.body@ == record_json(json_string(message), offset)
}

/// `resp` answers with the stored bytes `message` at `offset`: as a record
/// when they are UTF-8 text, else as a bad request, since they cannot be
/// decoded into a JSON string.
pub open spec fn is_stored_reply(resp: Response, message: Seq<u8>, offset: u64) -> bool {
    if valid_utf8(message) {
        is_record_reply(resp, decode_utf8(message), offset)
    } else {
        is_fixed(resp, STATUS_BAD_REQUEST, BAD_REQUEST_BODY)
    }
}

/// Whether two byte strings are equal.
fn bytes_eq(a: &[u8], b: &[u8]) -> (r: bool)
    ensures
        r == (a@ == b@),
{
    if a.len() != b.len() {
        return false;
    }
    let mut i: usize = 0;
    while i < a.len()
        invariant
            a@.len() == b@.len(),
            0 <= i <= a@.len(),
            a@.subrange(0, i as int) == b@.subrange(0, i as int),
        decreases a@.len() - i,
    {
        if a[i] != b[i] {
            assert(a@[i as int] != b@[i as int]);
            return false;
        }
        i = i + 1;
        assert(a@.subrange(0, i as int) =~= a@.subrange(0, i - 1).push(a@[i - 1]));
        assert(b@.subrange(0, i as int) =~= b@.subrange(0, i - 1).push(b@[i - 1]));
    }
    assert(a@ =~= a@.subrange(0, a@.len() as int));
    assert(b@ =~= b@.subrange(0, b@.len() as int));
    true
}

/// The reply with `status` and the fixed body `text`.
fn fixed(status: u16, text: &str) -> (resp: Response)
    ensures
        is_fixed(resp, status, text),
{
    let mut body: Vec<u8> = Vec::new();
    push_bytes(&mut body, text.as_bytes());
    assert(body@ =~= text.spec_bytes());
    Response { status, body }
}

/// Decides what a request asks for from its method and its normalised path.
pub fn route(method: Method, path: &[u8]) -> (r: Route)
    ensures
        r == route_spec(method, segments_spec(path@)),
{
    let segs = segments(path);
    let ghost sv = views(segs@);
    assert(segs.len() > 0 ==> sv[0] == segs@[0]@);
    let first_is_records = segs.len() > 0 && bytes_eq(segs[0].as_slice(), RECORDS.as_bytes());
    match method {
        Method::Post => {
            if segs.len() == 1 && first_is_records {
                assert(sv =~= seq![RECORDS.spec_bytes()]);
                Route::Append
            } else {
                assert(sv != seq![RECORDS.spec_bytes()]) by {
                    if sv == seq![RECORDS.spec_bytes()] {
                        assert(sv.len() == 1);
                        assert(sv[0] == RECORDS.spec_bytes());
                    }
                }
                Route::NotFound
            }
        },
        Method::Get => {
            if segs.len() == 2 && first_is_records {
                assert(sv[1] == segs@[1]@);
                match parse_offset(segs[1].as_slice()) {
                    Some(n) => Route::Read(n),
                    None => Route::BadOffset,
                }
            } else {
                Route::NotFound
            }
        },
        Method::Other => Route::NotFound,
    }
}

/// Answers with the record `rec`: its message as a JSON string and its offset.
pub fn record_response(rec: &Record) -> (resp: Response)
    ensures
        is_stored_reply(resp, rec.message@, rec.offset),
{
    match utf8_text(rec.message.as_slice()) {
        Some(text) => match encode_json_string(text) {
            Ok(quoted) => Response { status: STATUS_OK, body: frame_record(quoted.as_slice(), rec.offset) },
            Err(_) => fixed(STATUS_INTERNAL_ERROR, INTERNAL_ERROR_BODY),
        },
        None => fixed(STATUS_BAD_REQUEST, BAD_REQUEST_BODY),
    }
}

/// Appends `text` to the log as its UTF-8 bytes and answers with the stored
/// record.
pub fn append_text(log: &mut Log, text: &str) -> (resp: Response)
    requires
        old(log).wf(),
    ensures
        final(log).wf(),
        final(log)@ == old(log)@.push(encode_utf8(text@)),
        is_record_reply(resp, text@, old(log)@.len() as u64),
{
    let mut bytes: Vec<u8> = Vec::new();
    push_bytes(&mut bytes, text.as_bytes());
    let mut stored: Vec<u8> = Vec::new();
    push_bytes(&mut stored, bytes.as_slice());
    let offset = log.append(Record::new(stored));
    proof {
        encode_utf8_decode_utf8(text@);
        encode_utf8_valid_utf8(text@);
    }
    record_response(&Record { message: bytes, offset })
}

/// Handles `POST /records`: appends the body's `"message"` string, as UTF-8
/// bytes, and answers with the stored record. A body that is not such a JSON
/// object is a bad request and leaves the log as it was.
pub fn post_record(log: &mut Log, body: &[u8]) -> (resp: Response)
    requires
        old(log).wf(),
    ensures
        final(log).wf(),
        match json_message_field(body@) {
            Some(m) => final(log)@ == old(log)@.push(encode_utf8(m)) && is_record_reply(
                resp,
                m,
                old(log)@.len() as u64,
            ),
            None => final(log)@ == old(log)@ && is_fixed(
                resp,
                STATUS_BAD_REQUEST,
                BAD_REQUEST_BODY,
            ),
        },
{
    match parse_message_field(body) {
        Ok(Some(text)) => append_text(log, text.as_str()),
        _ => fixed(STATUS_BAD_REQUEST, BAD_REQUEST_BODY),
    }
}

/// Handles `GET /records/{offset}`: the stored record, or `404` when the log
/// holds no record at `offset`.
pub fn get_record(log: &Log, offset: u64) -> (resp: Response)
    requires
        log.wf(),
    ensures
        match read_spec(log@, offset as int) {
            Some(m) => is_stored_reply(resp, m, offset),
            None => is_fixed(resp, STATUS_NOT_FOUND, NOT_FOUND_BODY),
        },
{
    match log.read(offset) {
        Ok(rec) => record_response(&rec),
        Err(_) => fixed(STATUS_NOT_FOUND, NOT_FOUND_BODY),
    }
}

/// Serves one request against the log: routes it by method and normalised
/// path, performs the log operation it names, and encodes the answer.
pub fn handle(log: &mut Log, method: Method, path: &[u8], body: &[u8]) -> (resp: Response)
    requires
        old(log).wf(),
    ensures
        final(log).wf(),
        match route_spec(method, segments_spec(path@)) {
            Route::Append => match json_message_field(body@) {
                Some(m) => final(log)@ == old(log)@.push(encode_utf8(m)) && is_record_reply(
                    resp,
                    m,
                    old(log)@.len() as u64,
                ),
                None => final(log)@ == old(log)@ && is_fixed(
                    resp,
                    STATUS_BAD_REQUEST,
                    BAD_REQUEST_BODY,
                ),
            },
            Route::Read(offset) => final(log)@ == old(log)@ && match read_spec(
                old(log)@,
                offset as int,
            ) {
                Some(m) => is_stored_reply(resp, m, offset),
                None => is_fixed(resp, STATUS_NOT_FOUND, NOT_FOUND_BODY),
            },
            Route::BadOffset => final(log)@ == old(log)@ && is_fixed(
                resp,
                STATUS_BAD_REQUEST,
                BAD_REQUEST_BODY,
            ),
            Route::NotFound => final(log)@ == old(log)@ && is_fixed(
                resp,
                STATUS_NOT_FOUND,
                NOT_FOUND_BODY,
            ),
        },
{
    match route(method, path) {
        Route::Append => post_record(log, body),
        Route::Read(offset) => get_record(log, offset),
        Route::BadOffset => fixed(STATUS_BAD_REQUEST, BAD_REQUEST_BODY),
        Route::NotFound => fixed(STATUS_NOT_FOUND, NOT_FOUND_BODY),
    }
}

} // verus!
