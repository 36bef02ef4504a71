//! The fixed-format header that opens every archive.
//!
//! ```text
//! magic[24] merge_flag[1] file_count[4] mode[2] name_len[1] name[name_len]
//! ```
//!
//! Numbers are little-endian. The name is text in the windows-1252 code page.
use crate::error::ThorError;
use crate::text::{string_from_win_1252, text_view, win_1252_text};
use crate::wire::{le_i16, le_u32, le_u8, spec_le_i16, spec_le_u32, take};
use vstd::prelude::*;
use vstd::slice::slice_subrange;

verus! {

/// The signature of an archive: the ASCII text `ASSF (C) 2007 Aeomin DEV`.
pub const HEADER_MAGIC: [u8; 24] = [
    0x41, 0x53, 0x53, 0x46, 0x20, 0x28, 0x43, 0x29, 0x20, 0x32, 0x30, 0x30,
    0x37, 0x20, 0x41, 0x65, 0x6f, 0x6d, 0x69, 0x6e, 0x20, 0x44, 0x45, 0x56,
];

/// How the rest of an archive is laid out.
#[derive(Debug, Clone, Copy, PartialEq, Eq, Structural)]
pub enum ThorMode {
    /// One file, whose entry follows the table descriptor directly.
    SingleFile,
    /// Any number of files and deletion markers, listed in a compressed table.
    MultipleFiles,
    /// What every unknown mode selector maps to. No decoded header carries it.
    Invalid,
}

/// The mode that a selector stands for.
pub open spec fn spec_mode(selector: int) -> ThorMode {
    if selector == 33 {
        ThorMode::SingleFile
    } else if selector == 48 {
        ThorMode::MultipleFiles
    } else {
        ThorMode::Invalid
    }
}

/// Maps the mode selector of a header to the mode.
pub fn i16_to_mode(i: i16) -> (mode: ThorMode)
    ensures
        mode == spec_mode(i as int),
{
    if i == 33 {
        ThorMode::SingleFile
    } else if i == 48 {
        ThorMode::MultipleFiles
    } else {
        ThorMode::Invalid
    }
}

/// The number of files that a stored count stands for. The stored count
/// includes one reserved slot. A stored count of zero wraps around, as the
/// 32-bit subtraction does.
pub open spec fn spec_file_count(stored: int) -> nat {
    if stored == 0 {
        0xffff_ffff
    } else {
        (stored - 1) as nat
    }
}

/// The header of an archive.
#[derive(Debug, Clone, PartialEq, Eq)]
pub struct ThorHeader {
    /// Whether the files go into a data store (`true`) or into the client
    /// directory (`false`).
    pub use_grf_merging: bool,
    /// The number of files that the archive announces.
    pub file_count: usize,
    pub mode: ThorMode,
    /// The name of the target data store. Empty for the default store.
    pub target_grf_name: String,
}

/// What a [`ThorHeader`] holds.
pub struct HeaderView {
    pub use_grf_merging: bool,
    pub file_count: nat,
    pub mode: ThorMode,
    pub target_grf_name: Seq<char>,
}

impl View for ThorHeader {
    type V = HeaderView;

    open spec fn view(&self) -> HeaderView {
        HeaderView {
            use_grf_merging: self.use_grf_merging,
            file_count: self.file_count as nat,
            mode: self.mode,
            target_grf_name: self.target_grf_name@,
        }
    }
}

/// A header as it stands in the input: the name is still bytes.
#[derive(Debug, Clone, Copy, PartialEq, Eq)]
pub struct RawHeader<'a> {
    pub use_grf_merging: bool,
    pub file_count: usize,
    pub mode: ThorMode,
    pub target_grf_name: &'a [u8],
}

/// What a [`RawHeader`] holds.
pub struct RawHeaderView {
    pub use_grf_merging: bool,
    pub file_count: nat,
    pub mode: ThorMode,
    pub target_grf_name: Seq<u8>,
}

impl<'a> View for RawHeader<'a> {
    type V = RawHeaderView;

    open spec fn view(&self) -> RawHeaderView {
        RawHeaderView {
            use_grf_merging: self.use_grf_merging,
            file_count: self.file_count as nat,
            mode: self.mode,
            target_grf_name: self.target_grf_name@,
        }
    }
}

/// The number of signature bytes that an input of `len` bytes can show.
pub open spec fn magic_seen(len: nat) -> int {
    if len < 24 {
        len as int
    } else {
        24
    }
}

/// Whether the input starts like an archive, as far as it goes.
pub open spec fn magic_matches(s: Seq<u8>) -> bool {
    s.take(magic_seen(s.len())) == HEADER_MAGIC@.take(magic_seen(s.len()))
}

/// The header at the front of `s` and the number of bytes it takes, before
/// the name is decoded.
///
/// A signature byte that differs is `BadMagic`, even in an input that ends
/// early. The mode selector is judged as soon as it is read: an unknown one
/// is `InvalidMode` whatever follows.
pub open spec fn spec_raw_header(s: Seq<u8>) -> Result<(RawHeaderView, nat), ThorError> {
    if !magic_matches(s) {
        Err(ThorError::BadMagic)
    } else if s.len() < 31 {
        Err(ThorError::TruncatedInput)
    } else if spec_mode(spec_le_i16(s.skip(29))) == ThorMode::Invalid {
        Err(ThorError::InvalidMode)
    } else if s.len() < 32 || s.len() < 32 + s[31] {
        Err(ThorError::TruncatedInput)
    } else {
        Ok(
            (
                RawHeaderView {
                    use_grf_merging: s[24] == 1,
                    file_count: spec_file_count(spec_le_u32(s.skip(25))),
                    mode: spec_mode(spec_le_i16(s.skip(29))),
                    target_grf_name: s.subrange(32, 32 + s[31]),
                },
                (32 + s[31]) as nat,
            ),
        )
    }
}

/// The header that a raw header becomes once its name is decoded to `name`.
pub open spec fn spec_decode_header(raw: RawHeaderView, name: Option<Seq<char>>) -> Result<
    HeaderView,
    ThorError,
> {
    match name {
        Some(text) => Ok(
            HeaderView {
                use_grf_merging: raw.use_grf_merging,
                file_count: raw.file_count,
                mode: raw.mode,
                target_grf_name: text,
            },
        ),
        None => Err(ThorError::DecodingFailure),
    }
}

/// The header at the front of `s` and the number of bytes it takes. The name
/// is the text that its bytes stand for in windows-1252.
pub open spec fn spec_thor_header(s: Seq<u8>) -> Result<(HeaderView, nat), ThorError> {
    match spec_raw_header(s) {
        Ok((raw, consumed)) => match spec_decode_header(
            raw,
            Some(win_1252_text(raw.target_grf_name)),
        ) {
            Ok(header) => Ok((header, consumed)),
            Err(e) => Err(e),
        },
        Err(e) => Err(e),
    }
}

/// Checks the signature and steps over it.
pub fn expect_magic(input: &[u8]) -> (r: Result<&[u8], ThorError>)
    ensures
        match r {
            Ok(rest) => {
                &&& magic_matches(input@)
                &&& input@.len() >= 24
                &&& rest@ == input@.skip(24)
            },
            Err(e) => if magic_matches(input@) {
                e == ThorError::TruncatedInput && input@.len() < 24
            } else {
                e == ThorError::BadMagic
            },
        },
{
    let seen: usize = if input.len() < 24 {
        input.len()
    } else {
        24
    };
    let mut i: usize = 0;
    while i < seen
        invariant
            i <= seen,
            seen == magic_seen(input@.len()),
            forall|k: int| 0 <= k < i ==> input@[k] == HEADER_MAGIC@[k],
        decreases seen - i,
    {
        if input[i] != HEADER_MAGIC[i] {
            proof {
                let n = magic_seen(input@.len());
                assert(input@.take(n)[i as int] != HEADER_MAGIC@.take(n)[i as int]);
            }
            return Err(ThorError::BadMagic);
        }
        i += 1;
    }
    proof {
        let n = magic_seen(input@.len());
        assert(input@.take(n) =~= HEADER_MAGIC@.take(n));
    }
    if input.len() < 24 {
        return Err(ThorError::TruncatedInput);
    }
    Ok(slice_subrange(input, 24, input.len()))
}

/// Reads the header without decoding its name.
pub fn scan_thor_header<'a>(input: &'a [u8]) -> (r: Result<(&'a [u8], RawHeader<'a>), ThorError>)
    ensures
        match r {
            Ok((rest, raw)) => {
                &&& spec_raw_header(input@) matches Ok((header, consumed))
                &&& raw@ == header
                &&& rest@ == input@.skip(consumed as int)
            },
            Err(e) => spec_raw_header(input@) == Err::<(RawHeaderView, nat), ThorError>(e),
        },
{
    let rest = expect_magic(input)?;
    let (rest, merge_flag) = le_u8(rest)?;
    let (rest, stored_count) = le_u32(rest)?;
    let (rest, selector) = le_i16(rest)?;
    let mode = i16_to_mode(selector);
    match mode {
        ThorMode::Invalid => {
            return Err(ThorError::InvalidMode);
        },
        _ => {},
    }
    let (rest, name_len) = le_u8(rest)?;
    let (rest, name) = take(rest, name_len as usize)?;
    let file_count: usize = if stored_count == 0 {
        0xffff_ffff
    } else {
        (stored_count - 1) as usize
    };
    proof {
        let s = input@;
        assert(s.skip(24).skip(1).skip(4) =~= s.skip(29));
        assert(s.skip(24).skip(1) =~= s.skip(25));
        assert(name@ =~= s.subrange(32, 32 + s[31]));
        assert(rest@ =~= s.skip(32 + s[31]));
    }
    Ok(
        (
            rest,
            RawHeader {
                use_grf_merging: merge_flag == 1,
                file_count,
                mode,
                target_grf_name: name,
            },
        ),
    )
}

impl ThorHeader {
    /// Completes a raw header with its name as decoded, or reports that the
    /// name could not be decoded.
    pub fn from_raw(raw: RawHeader, name: Option<String>) -> (r: Result<ThorHeader, ThorError>)
        ensures
            match r {
                Ok(header) => spec_decode_header(raw@, text_view(name)) == Ok::<
                    HeaderView,
                    ThorError,
                >(header@),
                Err(e) => spec_decode_header(raw@, text_view(name)) == Err::<
                    HeaderView,
                    ThorError,
                >(e),
            },
    {
        match name {
            Some(text) => Ok(
                ThorHeader {
                    use_grf_merging: raw.use_grf_merging,
                    file_count: raw.file_count,
                    mode: raw.mode,
                    target_grf_name: text,
                },
            ),
            None => Err(ThorError::DecodingFailure),
        }
    }
}

/// Reads the header of an archive.
pub fn parse_thor_header(input: &[u8]) -> (r: Result<(&[u8], ThorHeader), ThorError>)
    ensures
        match r {
            Ok((rest, header)) => {
                &&& spec_thor_header(input@) matches Ok((decoded, consumed))
                &&& header@ == decoded
                &&& rest@ == input@.skip(consumed as int)
            },
            Err(e) => spec_thor_header(input@) == Err::<(HeaderView, nat), ThorError>(e),
        },
{
    let (rest, raw) = scan_thor_header(input)?;
    let name = string_from_win_1252(raw.target_grf_name);
    let header = ThorHeader::from_raw(raw, name)?;
    Ok((rest, header))
}

/// A name of no bytes is the empty text: the default store.
pub proof fn lemma_empty_name(s: Seq<u8>)
    requires
        spec_thor_header(s) is Ok,
        s[31] == 0,
    ensures
        spec_thor_header(s)->Ok_0.0.target_grf_name == Seq::<char>::empty(),
        spec_thor_header(s)->Ok_0.1 == 32,
{
    assert(win_1252_text(s.subrange(32, 32)) =~= Seq::<char>::empty());
}

} // verus!
