//! Entry records: one per file or deletion marker.
//!
//! ```text
//! single file:     size_compressed[4] size_decompressed[4] path_len[1] path[path_len]
//! multiple files:  path_len[1] path[path_len] flags[1]
//!                  and, unless bit 0 of flags is set:
//!                  offset[4] size_compressed[4] size_decompressed[4]
//! ```
//!
//! A record of a multi-file table has no fixed length: whether it ends after
//! the flags is known only once the flags are read.
use crate::error::ThorError;
use crate::table::{size_from_stored, spec_size_from_stored};
use crate::text::{string_from_win_1252, text_view, win_1252_text};
use crate::wire::{le_i32, le_u32, le_u8, spec_le_i32, spec_le_u32, take};
use vstd::prelude::*;

verus! {

/// One file of an archive, or a marker that deletes one.
///
/// A deletion marker stores neither sizes nor offset: the three numbers are
/// zero and stand for nothing.
#[derive(Debug, Clone, PartialEq, Eq, Hash)]
pub struct ThorEntry {
    /// The number of bytes that the content takes in the archive.
    pub size_compressed: usize,
    /// The number of bytes of the content once inflated.
    pub size_decompressed: usize,
    /// The path of the file in the target store. It identifies the entry.
    pub relative_path: String,
    /// Whether the entry marks the file for deletion.
    pub is_removed: bool,
    /// Where the compressed content starts, counted from the start of the
    /// archive. Zero in a single-file archive, which does not store it.
    pub offset: u64,
}

/// What a [`ThorEntry`] holds.
pub struct EntryView {
    pub size_compressed: nat,
    pub size_decompressed: nat,
    pub relative_path: Seq<char>,
    pub is_removed: bool,
    pub offset: nat,
}

impl View for ThorEntry {
    type V = EntryView;

    open spec fn view(&self) -> EntryView {
        EntryView {
            size_compressed: self.size_compressed as nat,
            size_decompressed: self.size_decompressed as nat,
            relative_path: self.relative_path@,
            is_removed: self.is_removed,
            offset: self.offset as nat,
        }
    }
}

/// An entry as it stands in the input: the path is still bytes.
#[derive(Debug, Clone, Copy, PartialEq, Eq)]
pub struct RawEntry<'a> {
    pub size_compressed: usize,
    pub size_decompressed: usize,
    pub relative_path: &'a [u8],
    pub is_removed: bool,
    pub offset: u64,
}

/// What a [`RawEntry`] holds.
pub struct RawEntryView {
    pub size_compressed: nat,
    pub size_decompressed: nat,
    pub relative_path: Seq<u8>,
    pub is_removed: bool,
    pub offset: nat,
}

impl<'a> View for RawEntry<'a> {
    type V = RawEntryView;

    open spec fn view(&self) -> RawEntryView {
        RawEntryView {
            size_compressed: self.size_compressed as nat,
            size_decompressed: self.size_decompressed as nat,
            relative_path: self.relative_path@,
            is_removed: self.is_removed,
            offset: self.offset as nat,
        }
    }
}

/// Whether the flags of a record mark a deletion: the lowest bit is set.
pub open spec fn spec_is_file_removed(flags: u8) -> bool {
    flags % 2 == 1
}

/// Tells from the flags of a record whether it marks a deletion.
pub fn is_file_removed(flags: u8) -> (removed: bool)
    ensures
        removed == spec_is_file_removed(flags),
{
    assert(flags & 1 == flags % 2) by (bit_vector);
    (flags & 1) == 1
}

/// The number of bytes that a record of a multi-file table takes.
pub open spec fn spec_record_len(raw: RawEntryView) -> nat {
    if raw.is_removed {
        raw.relative_path.len() + 2
    } else {
        raw.relative_path.len() + 14
    }
}

/// The entry of a single-file archive at the front of `s`, before its path
/// is decoded, and the number of bytes it takes.
pub open spec fn spec_raw_single_file_entry(s: Seq<u8>) -> Result<(RawEntryView, nat), ThorError> {
    if s.len() < 9 || s.len() < 9 + s[8] {
        Err(ThorError::TruncatedInput)
    } else {
        Ok(
            (
                RawEntryView {
                    size_compressed: spec_size_from_stored(spec_le_i32(s)),
                    size_decompressed: spec_size_from_stored(spec_le_i32(s.skip(4))),
                    relative_path: s.subrange(9, 9 + s[8]),
                    is_removed: false,
                    offset: 0,
                },
                (9 + s[8]) as nat,
            ),
        )
    }
}

/// The record of a multi-file table at the front of `s`, before its path is
/// decoded, and the number of bytes it takes.
pub open spec fn spec_raw_multiple_files_entry(s: Seq<u8>) -> Result<
    (RawEntryView, nat),
    ThorError,
> {
    if s.len() < 1 || s.len() < s[0] + 2 {
        Err(ThorError::TruncatedInput)
    } else if spec_is_file_removed(s[s[0] + 1]) {
        Ok(
            (
                RawEntryView {
                    size_compressed: 0,
                    size_decompressed: 0,
                    relative_path: s.subrange(1, 1 + s[0]),
                    is_removed: true,
                    offset: 0,
                },
                (s[0] + 2) as nat,
            ),
        )
    } else if s.len() < s[0] + 14 {
        Err(ThorError::TruncatedInput)
    } else {
        Ok(
            (
                RawEntryView {
                    size_compressed: spec_size_from_stored(spec_le_i32(s.skip(s[0] + 6))),
                    size_decompressed: spec_size_from_stored(spec_le_i32(s.skip(s[0] + 10))),
                    relative_path: s.subrange(1, 1 + s[0]),
                    is_removed: false,
                    offset: spec_le_u32(s.skip(s[0] + 2)) as nat,
                },
                (s[0] + 14) as nat,
            ),
        )
    }
}

/// The entry that a raw entry becomes once its path is decoded to `path`.
pub open spec fn spec_decode_entry(raw: RawEntryView, path: Option<Seq<char>>) -> Result<
    EntryView,
    ThorError,
> {
    match path {
        Some(text) => Ok(
            EntryView {
                size_compressed: raw.size_compressed,
                size_decompressed: raw.size_decompressed,
                relative_path: text,
                is_removed: raw.is_removed,
                offset: raw.offset,
            },
        ),
        None => Err(ThorError::DecodingFailure),
    }
}

/// A raw entry and its length, with the path turned into the text that its
/// bytes stand for in windows-1252.
pub open spec fn spec_decoded(raw: Result<(RawEntryView, nat), ThorError>) -> Result<
    (EntryView, nat),
    ThorError,
> {
    match raw {
        Ok((entry, consumed)) => match spec_decode_entry(
            entry,
            Some(win_1252_text(entry.relative_path)),
        ) {
            Ok(decoded) => Ok((decoded, consumed)),
            Err(e) => Err(e),
        },
        Err(e) => Err(e),
    }
}

/// The entry of a single-file archive at the front of `s` and the number of
/// bytes it takes.
pub open spec fn spec_single_file_entry(s: Seq<u8>) -> Result<(EntryView, nat), ThorError> {
    spec_decoded(spec_raw_single_file_entry(s))
}

/// The record of a multi-file table at the front of `s`, as an entry, and
/// the number of bytes it takes.
pub open spec fn spec_multiple_files_entry(s: Seq<u8>) -> Result<(EntryView, nat), ThorError> {
    spec_decoded(spec_raw_multiple_files_entry(s))
}

/// Reads the entry of a single-file archive without decoding its path.
pub fn scan_single_file_entry<'a>(input: &'a [u8]) -> (r: Result<
    (&'a [u8], RawEntry<'a>),
    ThorError,
>)
    ensures
        match r {
            Ok((rest, raw)) => {
                &&& spec_raw_single_file_entry(input@) matches Ok((entry, consumed))
                &&& raw@ == entry
                &&& rest@ == input@.skip(consumed as int)
            },
            Err(e) => spec_raw_single_file_entry(input@) == Err::<(RawEntryView, nat), ThorError>(
                e,
            ),
        },
{
    let (rest, stored_compressed) = le_i32(input)?;
    let (rest, stored_decompressed) = le_i32(rest)?;
    let (rest, path_len) = le_u8(rest)?;
    let (rest, path) = take(rest, path_len as usize)?;
    proof {
        let s = input@;
        assert(path@ =~= s.subrange(9, 9 + s[8]));
        assert(rest@ =~= s.skip(9 + s[8]));
    }
    Ok(
        (
            rest,
            RawEntry {
                size_compressed: size_from_stored(stored_compressed),
                size_decompressed: size_from_stored(stored_decompressed),
                relative_path: path,
                is_removed: false,
                offset: 0,
            },
        ),
    )
}

/// Reads one record of a multi-file table without decoding its path.
pub fn scan_multiple_files_entry<'a>(input: &'a [u8]) -> (r: Result<
    (&'a [u8], RawEntry<'a>),
    ThorError,
>)
    ensures
        match r {
            Ok((rest, raw)) => {
                &&& spec_raw_multiple_files_entry(input@) matches Ok((entry, consumed))
                &&& raw@ == entry
                &&& consumed == spec_record_len(entry)
                &&& rest@ == input@.skip(consumed as int)
            },
            Err(e) => spec_raw_multiple_files_entry(input@) == Err::<
                (RawEntryView, nat),
                ThorError,
            >(e),
        },
{
    let (rest, path_len) = le_u8(input)?;
    let (rest, path) = take(rest, path_len as usize)?;
    let (rest, flags) = le_u8(rest)?;
    proof {
        let s = input@;
        assert(path@ =~= s.subrange(1, 1 + s[0]));
        assert(rest@ =~= s.skip(s[0] + 2));
    }
    if is_file_removed(flags) {
        return Ok(
            (
                rest,
                RawEntry {
                    size_compressed: 0,
                    size_decompressed: 0,
                    relative_path: path,
                    is_removed: true,
                    offset: 0,
                },
            ),
        );
    }
    let (rest, offset) = le_u32(rest)?;
    let (rest, stored_compressed) = le_i32(rest)?;
    let (rest, stored_decompressed) = le_i32(rest)?;
    proof {
        let s = input@;
        assert(s.skip(s[0] + 2).skip(4) =~= s.skip(s[0] + 6));
        assert(s.skip(s[0] + 6).skip(4) =~= s.skip(s[0] + 10));
        assert(rest@ =~= s.skip(s[0] + 14));
    }
    Ok(
        (
            rest,
            RawEntry {
                size_compressed: size_from_stored(stored_compressed),
                size_decompressed: size_from_stored(stored_decompressed),
                relative_path: path,
                is_removed: false,
                offset: offset as u64,
            },
        ),
    )
}

impl ThorEntry {
    /// Completes a raw entry with its path as decoded, or reports that the
    /// path could not be decoded.
    pub fn from_raw(raw: RawEntry, path: Option<String>) -> (r: Result<ThorEntry, ThorError>)
        ensures
            match r {
                Ok(entry) => spec_decode_entry(raw@, text_view(path)) == Ok::<
                    EntryView,
                    ThorError,
                >(entry@),
                Err(e) => spec_decode_entry(raw@, text_view(path)) == Err::<EntryView, ThorError>(
                    e,
                ),
            },
    {
        match path {
            Some(text) => Ok(
                ThorEntry {
                    size_compressed: raw.size_compressed,
                    size_decompressed: raw.size_decompressed,
                    relative_path: text,
                    is_removed: raw.is_removed,
                    offset: raw.offset,
                },
            ),
            None => Err(ThorError::DecodingFailure),
        }
    }
}

/// Reads the entry of a single-file archive.
pub fn parse_single_file_entry(input: &[u8]) -> (r: Result<(&[u8], ThorEntry), ThorError>)
    ensures
        match r {
            Ok((rest, entry)) => {
                &&& spec_single_file_entry(input@) matches Ok((decoded, consumed))
                &&& entry@ == decoded
                &&& rest@ == input@.skip(consumed as int)
            },
            Err(e) => spec_single_file_entry(input@) == Err::<(EntryView, nat), ThorError>(e),
        },
{
    let (rest, raw) = scan_single_file_entry(input)?;
    let path = string_from_win_1252(raw.relative_path);
    let entry = ThorEntry::from_raw(raw, path)?;
    Ok((rest, entry))
}

/// Reads one record of a multi-file table.
pub fn parse_multiple_files_entry(input: &[u8]) -> (r: Result<(&[u8], ThorEntry), ThorError>)
    ensures
        match r {
            Ok((rest, entry)) => {
                &&& spec_multiple_files_entry(input@) matches Ok((decoded, consumed))
                &&& entry@ == decoded
                &&& rest@ == input@.skip(consumed as int)
            },
            Err(e) => spec_multiple_files_entry(input@) == Err::<(EntryView, nat), ThorError>(e),
        },
{
    let (rest, raw) = scan_multiple_files_entry(input)?;
    let path = string_from_win_1252(raw.relative_path);
    let entry = ThorEntry::from_raw(raw, path)?;
    Ok((rest, entry))
}

} // verus!
