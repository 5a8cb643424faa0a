//! Turning the segments of a request path into the components of a
//! filesystem path under the root.
use vstd::prelude::*;
use vstd::utf8::{decode_utf8, encode_utf8, valid_utf8};

use crate::errors::{BadString, ServeError};

verus! {

/// `b` is an ASCII hexadecimal digit, in either case.
pub open spec fn is_hex_digit(b: u8) -> bool {
    (0x30 <= b && b <= 0x39) || (0x41 <= b && b <= 0x46) || (0x61 <= b && b <= 0x66)
}

/// The value of the hexadecimal digit `b`.
pub open spec fn hex_value(b: u8) -> u8 {
    if b <= 0x39 {
        (b - 0x30) as u8
    } else if b <= 0x46 {
        (b - 0x41 + 10) as u8
    } else {
        (b - 0x61 + 10) as u8
    }
}

/// Percent-decoding: each `%` followed by two hexadecimal digits stands for
/// the byte they spell; every other byte, a `%` without two digits after it
/// included, stands for itself.
pub open spec fn percent_decoded(b: Seq<u8>) -> Seq<u8>
    decreases b.len(),
{
    if b.len() == 0 {
        Seq::empty()
    } else if b[0] == 0x25 && b.len() >= 3 && is_hex_digit(b[1]) && is_hex_digit(b[2]) {
        seq![(hex_value(b[1]) * 16 + hex_value(b[2])) as u8] + percent_decoded(b.subrange(3, b.len() as int))
    } else {
        seq![b[0]] + percent_decoded(b.subrange(1, b.len() as int))
    }
}

/// The text that a raw request path segment stands for: its percent-decoded
/// bytes read as UTF-8, or `None` where they are not valid UTF-8.
pub open spec fn decoded_segment(seg: Seq<char>) -> Option<Seq<char>> {
    let bytes = percent_decoded(encode_utf8(seg));
    if valid_utf8(bytes) {
        Some(decode_utf8(bytes))
    } else {
        None
    }
}

/// Relies on url's `percent_encoding::percent_decode`, collected into a
/// vector: a `%` and two hex digits (`char::to_digit(16)`) become one byte,
/// any other byte is kept.
#[verifier::external_body]
fn percent_decode_bytes(b: &[u8]) -> (r: Vec<u8>)
    ensures
        r@ == percent_decoded(b@),
{
    url::percent_encoding::percent_decode(b).collect()
}

/// Relies on `String::from_utf8`: it succeeds exactly when the bytes are
/// valid UTF-8, and then holds the characters they encode.
#[verifier::external_body]
fn string_from_utf8(b: Vec<u8>) -> (r: Option<String>)
    ensures
        match r {
            Some(s) => valid_utf8(b@) && s@ == decode_utf8(b@),
            None => !valid_utf8(b@),
        },
{
    String::from_utf8(b).ok()
}

/// Decodes one raw segment of a request path.
pub fn decode_segment(seg: &str) -> (r: Result<String, ServeError>)
    ensures
        match r {
            Ok(s) => decoded_segment(seg@) == Some(s@),
            Err(e) => decoded_segment(seg@) is None && e is Decoding,
        },
{
    let decoded = percent_decode_bytes(seg.as_bytes());
    match string_from_utf8(decoded) {
        Some(s) => Ok(s),
        None => Err(ServeError::Decoding(BadString::new("Could not decode a segment of the request path"))),
    }
}

/// The components of the path that a request names: the root, then each
/// segment decoded, in order. `.` and `..` are kept as they are.
pub fn extend_req_path(root: &str, segments: &Vec<String>) -> (r: Result<Vec<String>, ServeError>)
    ensures
        match r {
            Ok(v) => {
                &&& v.len() == segments.len() + 1
                &&& v[0]@ == root@
                &&& forall|i: int|
                    0 <= i < segments.len() ==> decoded_segment(#[trigger] segments[i]@) == Some(
                        v[i + 1]@,
                    )
            },
            Err(e) => {
                &&& e is Decoding
                &&& exists|i: int| 0 <= i < segments.len() && (#[trigger] decoded_segment(segments[i]@)) is None
            },
        },
{
    let mut path: Vec<String> = Vec::new();
    path.push(root.to_owned());
    let mut i: usize = 0;
    while i < segments.len()
        invariant
            i <= segments.len(),
            path.len() == i + 1,
            path[0]@ == root@,
            forall|j: int| 0 <= j < i ==> decoded_segment(#[trigger] segments[j]@) == Some(path[j + 1]@),
        decreases segments.len() - i,
    {
        match decode_segment(segments[i].as_str()) {
            Ok(s) => path.push(s),
            Err(e) => {
                assert(decoded_segment(segments[i as int]@) is None);
                return Err(e);
            },
        }
        i = i + 1;
    }
    Ok(path)
}

} // verus!
