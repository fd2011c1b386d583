//! Lines as they come off a pipe: bytes, with their line ending and in any encoding.

use vstd::prelude::*;
use vstd::slice::slice_subrange;

verus! {

/// The bytes of a line without its line ending. A carriage return is part of the line ending
/// only in front of a line feed.
pub open spec fn line_bytes(raw: Seq<u8>) -> Seq<u8> {
    if raw.len() > 0 && raw.last() == 10 {
        let line = raw.drop_last();
        if line.len() > 0 && line.last() == 13 {
            line.drop_last()
        } else {
            line
        }
    } else {
        raw
    }
}

/// The text that `String::from_utf8_lossy` makes of bytes.
pub uninterp spec fn lossy_text(bytes: Seq<u8>) -> Seq<char>;

/// Decodes bytes with `String::from_utf8_lossy`, which never fails: it puts a replacement
/// character in place of what is not UTF-8.
///
/// Trusted: the text depends on the bytes alone, and valid UTF-8 is decoded as it stands. Which
/// characters replace invalid bytes is left to [`lossy_text`].
#[verifier::external_body]
fn decode_lossy(bytes: &[u8]) -> (text: String)
    ensures
        text@ == lossy_text(bytes@),
        vstd::utf8::valid_utf8(bytes@) ==> text@ == vstd::utf8::decode_utf8(bytes@),
{
    String::from_utf8_lossy(bytes).into_owned()
}

/// Tells whether bytes are UTF-8 with `std::str::from_utf8`.
///
/// Trusted: it accepts the bytes exactly if they are valid UTF-8.
#[verifier::external_body]
pub(crate) fn is_utf8(bytes: &[u8]) -> (valid: bool)
    ensures
        valid == vstd::utf8::valid_utf8(bytes@),
{
    std::str::from_utf8(bytes).is_ok()
}

/// Takes the line ending off a line.
pub fn without_line_ending(raw: &[u8]) -> (line: &[u8])
    ensures
        line@ == line_bytes(raw@),
{
    let len = raw.len();
    if len > 0 && raw[len - 1] == 10 {
        if len > 1 && raw[len - 2] == 13 {
            let line = slice_subrange(raw, 0, len - 2);
            assert(line@ =~= line_bytes(raw@));
            line
        } else {
            let line = slice_subrange(raw, 0, len - 1);
            assert(line@ =~= line_bytes(raw@));
            line
        }
    } else {
        raw
    }
}

/// The text of a line as it came off a pipe.
pub open spec fn line_text(raw: Seq<u8>) -> Seq<char> {
    lossy_text(line_bytes(raw))
}

/// Reads one line as it came off a pipe. Bytes that are not UTF-8 do not stop it: build scripts
/// and localized toolchains write them.
pub fn decode_line(raw: &[u8]) -> (line: String)
    ensures
        line@ == line_text(raw@),
        vstd::utf8::valid_utf8(line_bytes(raw@)) ==> line@ == vstd::utf8::decode_utf8(
            line_bytes(raw@),
        ),
{
    decode_lossy(without_line_ending(raw))
}

} // verus!
