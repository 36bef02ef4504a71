//! A whole archive: header, table descriptor and entries.
//!
//! ```text
//! single file:     header reserved[1] entry content
//! multiple files:  header table_compressed_size[4] table_offset[4] ...
//!                  and, at table_offset from the start of the archive,
//!                  the zlib stream of the file table
//! ```
use crate::entry::{parse_single_file_entry, spec_single_file_entry, EntryView};
use crate::error::ThorError;
use crate::file_table::{parse_multiple_files_entries, spec_entry_table};
use crate::header::{
    magic_matches, parse_thor_header, spec_thor_header, HeaderView, ThorHeader, ThorMode,
    HEADER_MAGIC,
};
use crate::index::{
    distinct_paths, entry_map, fold_entries, lemma_fold_entries, lemma_fold_entries_len, paths,
    EntryIndex,
};
use crate::table::{
    parse_multiple_files_table, parse_single_file_table, rebase_table_offset,
    spec_multiple_files_table, spec_rebase_table_offset, spec_single_file_table,
    MultipleFilesTableDesc, ThorTable,
};
use crate::wire::{spec_le_i32, spec_le_u32};
use crate::zlib::{bytes_view, inflate, zlib_inflated};
use vstd::prelude::*;
use vstd::slice::slice_subrange;

verus! {

/// A decoded archive. It is built in one pass and does not change.
#[derive(Debug, PartialEq, Eq)]
pub struct ThorContainer {
    pub header: ThorHeader,
    /// The table descriptor. In a multi-file archive its offset counts from
    /// the end of the descriptor.
    pub table: ThorTable,
    pub entries: EntryIndex,
}

/// What a [`ThorContainer`] holds.
pub struct ContainerView {
    pub header: HeaderView,
    pub table: ThorTable,
    /// The entries, no two under one path, in the order in which their
    /// paths first came up.
    pub entries: Seq<EntryView>,
}

impl View for ThorContainer {
    type V = ContainerView;

    open spec fn view(&self) -> ContainerView {
        ContainerView {
            header: self.header@,
            table: self.table,
            entries: self.entries.listing(),
        }
    }
}

/// The container of a single-file archive with the given header, where
/// `body` is what follows the header, and what is left of `body`: the
/// content of the file.
pub open spec fn spec_single_file_archive(header: HeaderView, body: Seq<u8>) -> Result<
    (ContainerView, Seq<u8>),
    ThorError,
> {
    match spec_single_file_table(body) {
        Ok((table, table_len)) => match spec_single_file_entry(body.skip(table_len as int)) {
            Ok((entry, entry_len)) => Ok(
                (
                    ContainerView {
                        header,
                        table: ThorTable::SingleFile(table),
                        entries: seq![entry],
                    },
                    body.skip((table_len + entry_len) as int),
                ),
            ),
            Err(e) => Err(e),
        },
        Err(e) => Err(e),
    }
}

/// The container that header, table descriptor and the outcome of inflating
/// the file table make.
pub open spec fn spec_assemble_multiple_files(
    header: HeaderView,
    table: MultipleFilesTableDesc,
    inflated: Option<Seq<u8>>,
) -> Result<ContainerView, ThorError> {
    match inflated {
        Some(file_table) => match spec_entry_table(file_table) {
            Some(records) => Ok(
                ContainerView {
                    header,
                    table: ThorTable::MultipleFiles(table),
                    entries: fold_entries(records),
                },
            ),
            None => Err(ThorError::UnparseableEntryTable),
        },
        None => Err(ThorError::DecompressionFailure),
    }
}

/// The table descriptor of a multi-file archive, with its offset rebased,
/// and the bytes from the start of the file table to the end of the input.
///
/// `header_len` is the number of bytes before `body`, and `body` what
/// follows the header. The stored offset counts from the start of the input:
/// one that lies before the end of the descriptor is `TableOffsetUnderflow`,
/// one past the end of the input `TruncatedInput`.
pub open spec fn spec_locate_file_table(header_len: nat, body: Seq<u8>) -> Result<
    (MultipleFilesTableDesc, Seq<u8>),
    ThorError,
> {
    match spec_multiple_files_table(body) {
        Ok((stored, table_len)) => match spec_rebase_table_offset(
            stored.file_table_offset as nat,
            header_len + table_len,
            (body.len() - table_len) as nat,
        ) {
            Ok(offset) => Ok(
                (
                    MultipleFilesTableDesc {
                        file_table_compressed_size: stored.file_table_compressed_size,
                        file_table_offset: offset as u64,
                    },
                    body.skip((table_len + offset) as int),
                ),
            ),
            Err(e) => Err(e),
        },
        Err(e) => Err(e),
    }
}

/// The container of a multi-file archive with the given header, which took
/// `header_len` bytes, where `body` is what follows the header. Nothing of
/// the input is left.
///
/// The zlib stream of the file table is taken to run as far as it says
/// itself; the stored size is not consulted.
pub open spec fn spec_multiple_files_archive(
    header: HeaderView,
    header_len: nat,
    body: Seq<u8>,
) -> Result<(ContainerView, Seq<u8>), ThorError> {
    match spec_locate_file_table(header_len, body) {
        Ok((table, stream)) => match spec_assemble_multiple_files(
            header,
            table,
            zlib_inflated(stream),
        ) {
            Ok(container) => Ok((container, Seq::empty())),
            Err(e) => Err(e),
        },
        Err(e) => Err(e),
    }
}

/// The container that the archive `s` decodes to, and what is left of `s`.
pub open spec fn spec_thor_patch(s: Seq<u8>) -> Result<(ContainerView, Seq<u8>), ThorError> {
    match spec_thor_header(s) {
        Ok((header, header_len)) => match header.mode {
            ThorMode::SingleFile => spec_single_file_archive(header, s.skip(header_len as int)),
            ThorMode::MultipleFiles => spec_multiple_files_archive(
                header,
                header_len,
                s.skip(header_len as int),
            ),
            ThorMode::Invalid => Err(ThorError::InvalidMode),
        },
        Err(e) => Err(e),
    }
}

/// Reads the table descriptor of a multi-file archive and finds the file
/// table. `header_len` is the number of bytes of the archive before `body`.
pub fn locate_file_table(header_len: usize, body: &[u8]) -> (r: Result<
    (MultipleFilesTableDesc, &[u8]),
    ThorError,
>)
    ensures
        match r {
            Ok((table, stream)) => spec_locate_file_table(header_len as nat, body@) == Ok::<
                (MultipleFilesTableDesc, Seq<u8>),
                ThorError,
            >((table, stream@)),
            Err(e) => spec_locate_file_table(header_len as nat, body@) == Err::<
                (MultipleFilesTableDesc, Seq<u8>),
                ThorError,
            >(e),
        },
{
    let (rest, stored) = parse_multiple_files_table(body)?;
    let table_len: u64 = (body.len() - rest.len()) as u64;
    let consumed: u64 = match (header_len as u64).checked_add(table_len) {
        Some(consumed) => consumed,
        None => {
            return Err(ThorError::TableOffsetUnderflow);
        },
    };
    let offset = rebase_table_offset(stored.file_table_offset, consumed, rest.len())?;
    let stream = slice_subrange(rest, offset, rest.len());
    proof {
        assert(stream@ =~= body@.skip(8 + offset));
    }
    Ok(
        (
            MultipleFilesTableDesc {
                file_table_compressed_size: stored.file_table_compressed_size,
                file_table_offset: offset as u64,
            },
            stream,
        ),
    )
}

/// Builds the container of a multi-file archive from its header, its table
/// descriptor and the outcome of inflating its file table.
pub fn assemble_multiple_files(
    header: ThorHeader,
    table: MultipleFilesTableDesc,
    inflated: Option<Vec<u8>>,
) -> (r: Result<ThorContainer, ThorError>)
    ensures
        match r {
            Ok(container) => spec_assemble_multiple_files(header@, table, bytes_view(inflated))
                == Ok::<ContainerView, ThorError>(container@),
            Err(e) => spec_assemble_multiple_files(header@, table, bytes_view(inflated)) == Err::<
                ContainerView,
                ThorError,
            >(e),
        },
{
    let file_table = match inflated {
        Some(file_table) => file_table,
        None => {
            return Err(ThorError::DecompressionFailure);
        },
    };
    let entries = parse_multiple_files_entries(file_table.as_slice())?;
    Ok(ThorContainer { header, table: ThorTable::MultipleFiles(table), entries })
}

/// Decodes an archive.
///
/// Of a single-file archive the content of the file is left over; of a
/// multi-file archive nothing is.
pub fn parse_thor_patch(input: &[u8]) -> (r: Result<(&[u8], ThorContainer), ThorError>)
    ensures
        match r {
            Ok((rest, container)) => spec_thor_patch(input@) == Ok::<
                (ContainerView, Seq<u8>),
                ThorError,
            >((container@, rest@)),
            Err(e) => spec_thor_patch(input@) == Err::<(ContainerView, Seq<u8>), ThorError>(e),
        },
{
    let (output, header) = parse_thor_header(input)?;
    match header.mode {
        ThorMode::Invalid => Err(ThorError::InvalidMode),
        ThorMode::SingleFile => {
            let ghost body = output@;
            let (output, table) = parse_single_file_table(output)?;
            let (output, entry) = parse_single_file_entry(output)?;
            let ghost listed = entry@;
            let mut entries = EntryIndex::new();
            entries.insert(entry);
            proof {
                assert(entries.listing() =~= seq![listed]);
                let entry_len = spec_single_file_entry(body.skip(1))->Ok_0.1;
                assert(output@ =~= body.skip((1 + entry_len) as int));
            }
            Ok((output, ThorContainer { header, table: ThorTable::SingleFile(table), entries }))
        },
        ThorMode::MultipleFiles => {
            let header_len: usize = input.len() - output.len();
            let (table, stream) = locate_file_table(header_len, output)?;
            let container = assemble_multiple_files(header, table, inflate(stream))?;
            let rest = slice_subrange(input, 0, 0);
            proof {
                assert(rest@ =~= Seq::<u8>::empty());
            }
            Ok((rest, container))
        },
    }
}

/// A single-file archive lists exactly one entry, which is no deletion
/// marker. Where its header stores a count of two, one file and the
/// reserved slot, it announces one file.
pub proof fn lemma_single_file_archive(s: Seq<u8>)
    requires
        spec_thor_patch(s) is Ok,
        spec_thor_patch(s)->Ok_0.0.header.mode == ThorMode::SingleFile,
    ensures
        spec_thor_patch(s)->Ok_0.0.entries.len() == 1,
        !spec_thor_patch(s)->Ok_0.0.entries[0].is_removed,
        spec_le_u32(s.skip(25)) == 2 ==> spec_thor_patch(s)->Ok_0.0.header.file_count == 1,
{
}

/// An input in which a byte of the signature differs is refused as
/// `BadMagic`, whatever else it holds.
pub proof fn lemma_bad_magic(s: Seq<u8>, at: int)
    requires
        0 <= at < 24,
        at < s.len(),
        s[at] != HEADER_MAGIC@[at],
    ensures
        !magic_matches(s),
        spec_thor_patch(s) == Err::<(ContainerView, Seq<u8>), ThorError>(ThorError::BadMagic),
{
    let seen = if s.len() < 24 {
        s.len() as int
    } else {
        24
    };
    assert(s.take(seen)[at] != HEADER_MAGIC@.take(seen)[at]);
}

/// Opening a multi-file archive ends in `TableOffsetUnderflow` exactly
/// where the stored offset of the file table, a signed number, is less than
/// the number of bytes up to the end of the descriptor. An offset that
/// points right behind the descriptor is accepted.
pub proof fn lemma_table_offset_underflow(s: Seq<u8>)
    requires
        spec_thor_header(s) is Ok,
        spec_thor_header(s)->Ok_0.0.mode == ThorMode::MultipleFiles,
        s.len() >= spec_thor_header(s)->Ok_0.1 + 8,
    ensures
        spec_thor_patch(s) == Err::<(ContainerView, Seq<u8>), ThorError>(
            ThorError::TableOffsetUnderflow,
        ) <==> spec_le_i32(s.skip((spec_thor_header(s)->Ok_0.1 + 4) as int))
            < spec_thor_header(s)->Ok_0.1 + 8,
{
    let header_len = spec_thor_header(s)->Ok_0.1;
    assert(s.skip(header_len as int).skip(4) =~= s.skip((header_len + 4) as int));
}

/// What decoding leaves over is the end of the input.
pub proof fn lemma_rest_is_suffix(s: Seq<u8>)
    requires
        spec_thor_patch(s) is Ok,
    ensures
        spec_thor_patch(s)->Ok_0.1.len() <= s.len(),
        spec_thor_patch(s)->Ok_0.1 == s.skip(s.len() - spec_thor_patch(s)->Ok_0.1.len()),
{
    let (header, header_len) = spec_thor_header(s)->Ok_0;
    let rest = spec_thor_patch(s)->Ok_0.1;
    if header.mode == ThorMode::SingleFile {
        let body = s.skip(header_len as int);
        let entry_len = spec_single_file_entry(body.skip(1))->Ok_0.1;
        assert(rest =~= s.skip((header_len + 1 + entry_len) as int));
    } else {
        assert(rest =~= s.skip(s.len() as int));
    }
}

/// The records of the file table of a multi-file archive that decodes.
pub open spec fn spec_file_table_records(s: Seq<u8>) -> Seq<EntryView> {
    let (_, header_len) = spec_thor_header(s)->Ok_0;
    let (_, stream) = spec_locate_file_table(header_len, s.skip(header_len as int))->Ok_0;
    spec_entry_table(zlib_inflated(stream)->0)->0
}

/// A multi-file archive lists one entry for each distinct path of its file
/// table: records that share a path collapse into one entry, and the map
/// from path to entry is the one that the records stand for, in which the
/// last record of a path wins.
pub proof fn lemma_multiple_files_archive(s: Seq<u8>)
    requires
        spec_thor_patch(s) is Ok,
        spec_thor_patch(s)->Ok_0.0.header.mode == ThorMode::MultipleFiles,
    ensures
        spec_thor_patch(s)->Ok_0.0.entries == fold_entries(spec_file_table_records(s)),
        distinct_paths(spec_thor_patch(s)->Ok_0.0.entries),
        spec_thor_patch(s)->Ok_0.0.entries.len() == paths(
            spec_file_table_records(s),
        ).to_set().len(),
        entry_map(spec_thor_patch(s)->Ok_0.0.entries) == entry_map(spec_file_table_records(s)),
{
    lemma_fold_entries(spec_file_table_records(s));
    lemma_fold_entries_len(spec_file_table_records(s));
}

} // verus!
