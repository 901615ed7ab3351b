use crate::decimal::{decimal_bytes, push_decimal};
use vstd::prelude::*;
use vstd::string::StringSliceAdditionalSpecFns;
use vstd::utf8::{decode_utf8, encode_utf8, valid_utf8};

verus! {

#[verifier::external_type_specification]
#[verifier::external_body]
pub struct ExJsonError(serde_json::Error);

/// The text of the `"message"` member of the JSON object that `body` holds,
/// when `body` is a JSON document whose `"message"` member is a string.
pub uninterp spec fn json_message_field(body: Seq<u8>) -> Option<Seq<char>>;

/// The lower-case hexadecimal digit for `n < 16`.
pub open spec fn hex_digit(n: u8) -> u8 {
    if n < 10 {
        (48 + n) as u8
    } else {
        (87 + n) as u8
    }
}

/// How a JSON string literal writes the byte `b` of its text: `"` and `\`
/// behind a backslash, the control bytes as `\b`, `\t`, `\n`, `\f`, `\r` or
/// `\u00xx`, and every other byte as itself.
pub open spec fn json_escape_byte(b: u8) -> Seq<u8> {
    if b == 0x08 {
        seq![92u8, 98u8]
    } else if b == 0x09 {
        seq![92u8, 116u8]
    } else if b == 0x0a {
        seq![92u8, 110u8]
    } else if b == 0x0c {
        seq![92u8, 102u8]
    } else if b == 0x0d {
        seq![92u8, 114u8]
    } else if b == 0x22 {
        seq![92u8, 34u8]
    } else if b == 0x5c {
        seq![92u8, 92u8]
    } else if b < 0x20 {
        seq![92u8, 117u8, 48u8, 48u8, hex_digit(b / 16), hex_digit(b % 16)]
    } else {
        seq![b]
    }
}

/// The bytes `bytes`, each written as `json_escape_byte` says.
pub open spec fn json_escaped(bytes: Seq<u8>) -> Seq<u8>
    decreases bytes.len(),
{
    if bytes.len() == 0 {
        Seq::empty()
    } else {
        json_escaped(bytes.drop_last()) + json_escape_byte(bytes.last())
    }
}

/// The JSON string literal that spells `s`: its UTF-8 bytes, escaped, between
/// double quotes.
pub open spec fn json_string(s: Seq<char>) -> Seq<u8> {
    seq![34u8] + json_escaped(encode_utf8(s)) + seq![34u8]
}

/// Relies on serde_json::from_slice to parse `body` as a JSON value, and on
/// Value::get and Value::as_str to take its `"message"` member as a string.
#[verifier::external_body]
pub(crate) fn parse_message_field(body: &[u8]) -> (r: Result<Option<String>, serde_json::Error>)
    ensures
        match r {
            Ok(Some(s)) => json_message_field(body@) == Some(s@),
            _ => json_message_field(body@) is None,
        },
{
    let value = serde_json::from_slice::<serde_json::Value>(body)?;
    Ok(value.get("message").and_then(serde_json::Value::as_str).map(String::from))
}

/// Relies on serde_json::to_vec, which writes a `str` as a JSON string
/// literal: a quote, the text's bytes through serde_json's escape table, and a
/// quote. Written into a `Vec`, that never fails.
#[verifier::external_body]
pub(crate) fn encode_json_string(s: &str) -> (r: Result<Vec<u8>, serde_json::Error>)
    ensures
        r is Ok,
        r matches Ok(v) ==> v@ == json_string(s@),
{
    serde_json::to_vec(s)
}

/// Relies on std::str::from_utf8: it succeeds exactly on valid UTF-8, with the
/// text that the bytes encode.
#[verifier::external_body]
pub(crate) fn utf8_text(b: &[u8]) -> (r: Option<&str>)
    ensures
        match r {
            Some(s) => valid_utf8(b@) && s@ == decode_utf8(b@),
            None => !valid_utf8(b@),
        },
{
    std::str::from_utf8(b).ok()
}

/// What a framed record starts with, up to its message.
pub const MESSAGE_OPEN: &'static str = "{\"message\":";

/// What stands between a framed record's message and its offset.
pub const OFFSET_KEY: &'static str = ",\"offset\":";

/// What a framed record ends with.
pub const OBJECT_CLOSE: &'static str = "}";

/// The JSON object `{"message":<quoted>,"offset":<offset>}`, where `quoted` is
/// an already encoded JSON string.
pub open spec fn record_json(quoted: Seq<u8>, offset: u64) -> Seq<u8> {
    MESSAGE_OPEN.spec_bytes() + quoted + OFFSET_KEY.spec_bytes() + decimal_bytes(offset as nat)
        + OBJECT_CLOSE.spec_bytes()
}

/// Appends the bytes `b` to `out`.
pub fn push_bytes(out: &mut Vec<u8>, b: &[u8])
    ensures
        final(out)@ == old(out)@ + b@,
{
    let mut i: usize = 0;
    while i < b.len()
        invariant
            0 <= i <= b@.len(),
            out@ == old(out)@ + b@.subrange(0, i as int),
        decreases b@.len() - i,
    {
        out.push(b[i]);
        i = i + 1;
        assert(out@ =~= old(out)@ + b@.subrange(0, i as int));
    }
    assert(b@.subrange(0, b@.len() as int) =~= b@);
}

/// Frames a record as the JSON object `{"message":<quoted>,"offset":<offset>}`,
/// where `quoted` is the message already written as a JSON string.
pub fn frame_record(quoted: &[u8], offset: u64) -> (r: Vec<u8>)
    ensures
        r@ == record_json(quoted@, offset),
{
    let mut out: Vec<u8> = Vec::new();
    push_bytes(&mut out, MESSAGE_OPEN.as_bytes());
    push_bytes(&mut out, quoted);
    push_bytes(&mut out, OFFSET_KEY.as_bytes());
    push_decimal(&mut out, offset);
    push_bytes(&mut out, OBJECT_CLOSE.as_bytes());
    assert(out@ =~= record_json(quoted@, offset));
    out
}

} // verus!
