//! One request line off the daemon's socket, bounded.
//!
//! The reading is the caller's; what a line of bytes means is decided here:
//! nothing read is the end of the stream, more than the limit is refused
//! rather than buffered, the line ending is not part of the request, and a
//! line that is not UTF-8 is refused.

use vstd::prelude::*;
use vstd::utf8::{decode_utf8, valid_utf8};
use crate::text::{decimal, push_decimal, push_str};

verus! {

/// What one bounded read produced.
#[derive(Debug, Clone, PartialEq, Eq)]
pub enum LineRead {
    /// The peer closed the stream.
    Eof,
    /// More than the limit arrived before a newline.
    TooLong,
    /// One request, line ending removed.
    Line(Vec<u8>),
}

/// `bytes` without any trailing run of `\n` and `\r`.
pub open spec fn without_line_end(bytes: Seq<u8>) -> Seq<u8>
    decreases bytes.len(),
{
    if bytes.len() > 0 && (bytes.last() == 10 || bytes.last() == 13) {
        without_line_end(bytes.drop_last())
    } else {
        bytes
    }
}

/// The meaning of the bytes a read of at most `max_bytes + 1` returned.
pub open spec fn line_read(bytes: Seq<u8>, max_bytes: nat) -> Option<Option<Seq<u8>>> {
    if bytes.len() == 0 {
        Some(None)
    } else if bytes.len() > max_bytes {
        None
    } else {
        Some(Some(without_line_end(bytes)))
    }
}

/// Decide what a bounded read produced. `bytes` is everything the read
/// returned, newline included.
pub fn bounded_line(bytes: Vec<u8>, max_bytes: usize) -> (r: LineRead)
    ensures
        match (r, line_read(bytes@, max_bytes as nat)) {
            (LineRead::Eof, Some(None)) => true,
            (LineRead::TooLong, None) => true,
            (LineRead::Line(l), Some(Some(want))) => l@ == want,
            _ => false,
        },
{
    if bytes.len() == 0 {
        return LineRead::Eof;
    }
    if bytes.len() > max_bytes {
        return LineRead::TooLong;
    }
    let mut buf = bytes;
    while buf.len() > 0 && (buf[buf.len() - 1] == 10u8 || buf[buf.len() - 1] == 13u8)
        invariant
            without_line_end(buf@) == without_line_end(bytes@),
        decreases buf.len(),
    {
        let ghost before = buf@;
        buf.pop();
        assert(buf@ =~= before.drop_last());
    }
    LineRead::Line(buf)
}

pub open spec fn too_long_text(max_bytes: nat) -> Seq<char> {
    "Request line exceeds "@ + decimal(max_bytes) + " bytes limit"@
}

/// The error a refused line is answered with.
pub fn too_long_message(max_bytes: usize) -> (r: String)
    ensures
        r@ == too_long_text(max_bytes as nat),
{
    let mut s = String::new();
    push_str(&mut s, "Request line exceeds ");
    push_decimal(&mut s, max_bytes as u128);
    push_str(&mut s, " bytes limit");
    s
}


/// The text `String::from_utf8` gives in its error for bytes that are not
/// UTF-8 (where the first bad sequence starts, and how long it is).
pub uninterp spec fn utf8_error_text(bytes: Seq<u8>) -> Seq<char>;

/// `String::from_utf8`: the bytes as text when they are UTF-8, else the
/// error's text. The error's wording is std's and is not restated here.
#[verifier::external_body]
fn string_from_utf8(bytes: Vec<u8>) -> (r: Result<String, String>)
    ensures
        match r {
            Ok(s) => valid_utf8(bytes@) && s@ == decode_utf8(bytes@),
            Err(e) => !valid_utf8(bytes@) && e@ == utf8_error_text(bytes@),
        },
{
    String::from_utf8(bytes).map_err(|e| e.to_string())
}

/// What a bounded read of a request line yields: `Ok(None)` at the end of
/// the stream, the line as text, or why it was refused.
pub open spec fn request_line(bytes: Seq<u8>, max_bytes: nat) -> Result<Option<Seq<char>>, Seq<char>> {
    match line_read(bytes, max_bytes) {
        None => Err(too_long_text(max_bytes)),
        Some(None) => Ok(None),
        Some(Some(l)) => if valid_utf8(l) {
            Ok(Some(decode_utf8(l)))
        } else {
            Err(utf8_error_text(l))
        },
    }
}

/// One request line. `bytes` is what a read of at most `max_bytes + 1`
/// bytes up to and including a newline returned: nothing is the end of the
/// stream, more than `max_bytes` is refused, and otherwise the line without
/// its trailing `\n` and `\r` bytes is the request, refused if it is not
/// UTF-8.
pub fn read_bounded_line(bytes: Vec<u8>, max_bytes: usize) -> (r: Result<Option<String>, String>)
    ensures
        match (r, request_line(bytes@, max_bytes as nat)) {
            (Ok(None), Ok(None)) => true,
            (Ok(Some(s)), Ok(Some(want))) => s@ == want,
            (Err(e), Err(want)) => e@ == want,
            _ => false,
        },
{
    match bounded_line(bytes, max_bytes) {
        LineRead::Eof => Ok(None),
        LineRead::TooLong => Err(too_long_message(max_bytes)),
        LineRead::Line(l) => match string_from_utf8(l) {
            Ok(s) => Ok(Some(s)),
            Err(e) => Err(e),
        },
    }
}

/// The longest request line the servers read, in bytes.
pub const MAX_REQUEST_SIZE: usize = 65536;

/// A line the socket refused to read is answered with this code.
pub const INVALID_REQUEST: i32 = -32600;

/// The error message a refused line is answered with.
pub open spec fn invalid_request_text(why: Seq<char>) -> Seq<char> {
    "Invalid Request: "@ + why
}

/// The error message a refused line is answered with.
pub fn invalid_request_message(why: &str) -> (r: String)
    ensures
        r@ == invalid_request_text(why@),
{
    let mut s = String::new();
    push_str(&mut s, "Invalid Request: ");
    push_str(&mut s, why);
    s
}

} // verus!
