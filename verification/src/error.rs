use vstd::prelude::*;

verus! {

/// Why an archive could not be opened, or why the content of an entry could
/// not be retrieved.
///
/// The first seven variants end the decoding of an archive: there is no
/// partial container. The others are reported per retrieval and leave the
/// archive usable.
#[derive(Debug, Clone, Copy, PartialEq, Eq, Structural)]
pub enum ThorError {
    /// The input does not start with the archive signature.
    BadMagic,
    /// The mode selector of the header names no known layout.
    InvalidMode,
    /// The file table is said to start before the end of its own descriptor.
    TableOffsetUnderflow,
    /// A compressed block is not a complete zlib stream.
    DecompressionFailure,
    /// A name holds bytes that the code page cannot map.
    DecodingFailure,
    /// The input ends in the middle of a record.
    TruncatedInput,
    /// The inflated file table is not a whole number of entry records.
    UnparseableEntryTable,
    /// The archive lists no entry under the given path.
    EntryNotFound,
    /// The entry is a deletion marker and has no content.
    EntryRemoved,
    /// The byte source could not be positioned at the offset of the entry.
    /// Only a caller that seeks in a source reports it: a source held in
    /// memory has no such failure.
    SeekFailure,
    /// The byte source ends before the last stored byte of the entry.
    ShortRead,
}

} // verus!
