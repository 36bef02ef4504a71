//! The table descriptor that follows the header. Its layout depends on the
//! mode of the archive.
//!
//! ```text
//! single file:     reserved[1]
//! multiple files:  table_compressed_size[4] table_offset[4]
//! ```
use crate::error::ThorError;
use crate::wire::{le_i32, le_u8, spec_le_i32};
use vstd::prelude::*;

verus! {

/// The table descriptor of a single-file archive. It stores nothing: the one
/// entry follows it directly.
#[derive(Debug, Clone, Copy, PartialEq, Eq, Structural)]
pub struct SingleFileTableDesc {
    /// Always zero.
    pub file_table_offset: u64,
}

/// The table descriptor of a multi-file archive.
#[derive(Debug, Clone, Copy, PartialEq, Eq, Structural)]
pub struct MultipleFilesTableDesc {
    /// The size of the compressed file table, in bytes.
    pub file_table_compressed_size: usize,
    /// Where the compressed file table starts. As stored, counted from the
    /// start of the archive; in a container, counted from the end of this
    /// descriptor.
    pub file_table_offset: u64,
}

/// The table descriptor of an archive.
#[derive(Debug, Clone, Copy, PartialEq, Eq, Structural)]
pub enum ThorTable {
    SingleFile(SingleFileTableDesc),
    MultipleFiles(MultipleFilesTableDesc),
}

/// A stored signed 32-bit number widened to a size. A negative number is
/// sign-extended to the width of `usize`.
pub open spec fn spec_size_from_stored(stored: int) -> nat {
    if stored >= 0 {
        stored as nat
    } else {
        (usize::MAX + 1 + stored) as nat
    }
}

/// Widens a stored size.
pub fn size_from_stored(stored: i32) -> (size: usize)
    ensures
        size == spec_size_from_stored(stored as int),
{
    if stored >= 0 {
        stored as usize
    } else {
        usize::MAX - ((-(stored + 1)) as usize)
    }
}

/// The table descriptor of a single-file archive at the front of `s`.
pub open spec fn spec_single_file_table(s: Seq<u8>) -> Result<
    (SingleFileTableDesc, nat),
    ThorError,
> {
    if s.len() < 1 {
        Err(ThorError::TruncatedInput)
    } else {
        Ok((SingleFileTableDesc { file_table_offset: 0 }, 1))
    }
}

/// The table descriptor of a multi-file archive at the front of `s`, with the
/// offset as stored.
///
/// The stored offset is a signed number. A negative one lies before the
/// start of the archive, and so before the end of the descriptor wherever
/// the descriptor stands: it is `TableOffsetUnderflow`.
pub open spec fn spec_multiple_files_table(s: Seq<u8>) -> Result<
    (MultipleFilesTableDesc, nat),
    ThorError,
> {
    if s.len() < 8 {
        Err(ThorError::TruncatedInput)
    } else if spec_le_i32(s.skip(4)) < 0 {
        Err(ThorError::TableOffsetUnderflow)
    } else {
        Ok(
            (
                MultipleFilesTableDesc {
                    file_table_compressed_size: spec_size_from_stored(spec_le_i32(s)) as usize,
                    file_table_offset: spec_le_i32(s.skip(4)) as u64,
                },
                8,
            ),
        )
    }
}

/// Where the file table starts in what follows the descriptor.
///
/// `stored` is the offset that the descriptor holds, `consumed` the number of
/// bytes up to the end of the descriptor, `remaining` the number of bytes
/// after it. An offset before the end of the descriptor is
/// `TableOffsetUnderflow`; one past the end of the input is `TruncatedInput`.
pub open spec fn spec_rebase_table_offset(stored: nat, consumed: nat, remaining: nat) -> Result<
    nat,
    ThorError,
> {
    if stored < consumed {
        Err(ThorError::TableOffsetUnderflow)
    } else if stored - consumed > remaining {
        Err(ThorError::TruncatedInput)
    } else {
        Ok((stored - consumed) as nat)
    }
}

/// Reads the table descriptor of a single-file archive.
pub fn parse_single_file_table(input: &[u8]) -> (r: Result<(&[u8], SingleFileTableDesc), ThorError>)
    ensures
        match r {
            Ok((rest, table)) => {
                &&& spec_single_file_table(input@) == Ok::<(SingleFileTableDesc, nat), ThorError>(
                    (table, 1),
                )
                &&& rest@ == input@.skip(1)
            },
            Err(e) => spec_single_file_table(input@) == Err::<
                (SingleFileTableDesc, nat),
                ThorError,
            >(e),
        },
{
    let (rest, _reserved) = le_u8(input)?;
    Ok((rest, SingleFileTableDesc { file_table_offset: 0 }))
}

/// Reads the table descriptor of a multi-file archive. The offset comes out
/// as stored; a negative one is refused.
pub fn parse_multiple_files_table(input: &[u8]) -> (r: Result<
    (&[u8], MultipleFilesTableDesc),
    ThorError,
>)
    ensures
        match r {
            Ok((rest, table)) => {
                &&& spec_multiple_files_table(input@) == Ok::<
                    (MultipleFilesTableDesc, nat),
                    ThorError,
                >((table, 8))
                &&& rest@ == input@.skip(8)
            },
            Err(e) => spec_multiple_files_table(input@) == Err::<
                (MultipleFilesTableDesc, nat),
                ThorError,
            >(e),
        },
{
    let (rest, stored_size) = le_i32(input)?;
    let (rest, stored_offset) = le_i32(rest)?;
    proof {
        assert(rest@ =~= input@.skip(8));
    }
    if stored_offset < 0 {
        return Err(ThorError::TableOffsetUnderflow);
    }
    Ok(
        (
            rest,
            MultipleFilesTableDesc {
                file_table_compressed_size: size_from_stored(stored_size),
                file_table_offset: stored_offset as u64,
            },
        ),
    )
}

/// Turns the stored offset of the file table into an offset into what
/// follows the descriptor.
pub fn rebase_table_offset(stored: u64, consumed: u64, remaining: usize) -> (r: Result<
    usize,
    ThorError,
>)
    ensures
        match r {
            Ok(offset) => spec_rebase_table_offset(stored as nat, consumed as nat, remaining as nat)
                == Ok::<nat, ThorError>(offset as nat),
            Err(e) => spec_rebase_table_offset(stored as nat, consumed as nat, remaining as nat)
                == Err::<nat, ThorError>(e),
        },
{
    if stored < consumed {
        return Err(ThorError::TableOffsetUnderflow);
    }
    let offset: u64 = stored - consumed;
    if offset > remaining as u64 {
        return Err(ThorError::TruncatedInput);
    }
    Ok(offset as usize)
}

} // verus!
