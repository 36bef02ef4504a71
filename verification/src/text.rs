//! Names in an archive are stored in the windows-1252 code page.
use encoding::label::encoding_from_whatwg_label;
use encoding::DecoderTrap;
use vstd::prelude::*;

verus! {

/// The code point that a byte stands for in windows-1252.
///
/// Bytes up to 0x7f and from 0xa0 up stand for the code point of their own
/// number, as do the five bytes from 0x80 to 0x9f that the code page leaves
/// undefined. The other twenty-seven stand for the code points listed.
pub open spec fn win_1252_code_point(byte: u8) -> u32 {
    match byte {
        0x80 => 8364,
        0x82 => 8218,
        0x83 => 402,
        0x84 => 8222,
        0x85 => 8230,
        0x86 => 8224,
        0x87 => 8225,
        0x88 => 710,
        0x89 => 8240,
        0x8a => 352,
        0x8b => 8249,
        0x8c => 338,
        0x8e => 381,
        0x91 => 8216,
        0x92 => 8217,
        0x93 => 8220,
        0x94 => 8221,
        0x95 => 8226,
        0x96 => 8211,
        0x97 => 8212,
        0x98 => 732,
        0x99 => 8482,
        0x9a => 353,
        0x9b => 8250,
        0x9c => 339,
        0x9e => 382,
        0x9f => 376,
        _ => byte as u32,
    }
}

/// The text that bytes in windows-1252 stand for: one character for each
/// byte.
pub open spec fn win_1252_text(bytes: Seq<u8>) -> Seq<char> {
    Seq::new(bytes.len(), |i: int| win_1252_code_point(bytes[i]) as char)
}

/// The text in the outcome of a decoding.
pub open spec fn text_view(outcome: Option<String>) -> Option<Seq<char>> {
    match outcome {
        Some(text) => Some(text@),
        None => None,
    }
}

/// Decodes a name.
///
/// Not proved: the body asks `encoding::label::encoding_from_whatwg_label`
/// for the decoder labelled "windows-1252" and calls its `decode` with
/// `DecoderTrap::Strict`. The contract claims what the source of the crate
/// shows: the label is known, the decoder writes one character for each
/// byte, the byte itself up to 0x7f and otherwise the entry of its forward
/// table, which [`win_1252_code_point`] repeats, and since no entry of that
/// table is the error mark, no input is rejected.
#[verifier::external_body]
pub(crate) fn string_from_win_1252(v: &[u8]) -> (r: Option<String>)
    ensures
        text_view(r) == Some(win_1252_text(v@)),
{
    match encoding_from_whatwg_label("windows-1252") {
        Some(decoder) => match decoder.decode(v, DecoderTrap::Strict) {
            Ok(text) => Some(text),
            Err(_) => None,
        },
        None => None,
    }
}

} // verus!
