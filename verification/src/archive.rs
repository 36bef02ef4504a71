//! An opened archive and the retrieval of the content of its entries.
//!
//! The content of an entry is a zlib stream of `size_compressed` bytes. In a
//! multi-file archive it starts at the `offset` of the entry. A single-file
//! archive stores no offset: the content starts where the record of its one
//! entry ends. Nothing is kept between retrievals.
use crate::container::{
    lemma_rest_is_suffix, parse_thor_patch, spec_thor_patch, ContainerView, ThorContainer,
};
use crate::entry::ThorEntry;
use crate::error::ThorError;
use crate::header::ThorMode;
use crate::index::{distinct_paths, entry_map, entry_views, lemma_entry_map_last_wins};
use crate::zlib::{bytes_view, inflate, zlib_inflated};
use vstd::prelude::*;
use vstd::slice::slice_subrange;

verus! {

/// Where the compressed content of an entry lies in the byte source.
#[derive(Debug, Clone, Copy, PartialEq, Eq, Structural)]
pub struct ContentLocation {
    /// The offset of the first byte, counted from the start of the source.
    pub offset: u64,
    /// The number of bytes to read.
    pub size_compressed: usize,
}

/// What a [`ContentLocation`] holds.
pub struct LocationView {
    pub offset: nat,
    pub size_compressed: nat,
}

impl View for ContentLocation {
    type V = LocationView;

    open spec fn view(&self) -> LocationView {
        LocationView {
            offset: self.offset as nat,
            size_compressed: self.size_compressed as nat,
        }
    }
}

/// Where the content of the entry under `path` lies.
///
/// `content_start` is the number of bytes that decoding the archive took: in
/// a single-file archive the content of the one entry starts there, whatever
/// the entry has as its offset. No entry under the path is `EntryNotFound`;
/// a deletion marker is `EntryRemoved`.
pub open spec fn spec_locate_content(
    container: ContainerView,
    content_start: nat,
    path: Seq<char>,
) -> Result<LocationView, ThorError> {
    if !entry_map(container.entries).contains_key(path) {
        Err(ThorError::EntryNotFound)
    } else if entry_map(container.entries)[path].is_removed {
        Err(ThorError::EntryRemoved)
    } else {
        Ok(
            LocationView {
                offset: if container.header.mode == ThorMode::SingleFile {
                    content_start
                } else {
                    entry_map(container.entries)[path].offset
                },
                size_compressed: entry_map(container.entries)[path].size_compressed,
            },
        )
    }
}

/// The bytes of `source` at a location. A source that ends before the last
/// of them is `ShortRead`.
pub open spec fn spec_stored_content(source: Seq<u8>, location: LocationView) -> Result<
    Seq<u8>,
    ThorError,
> {
    if location.offset + location.size_compressed > source.len() {
        Err(ThorError::ShortRead)
    } else {
        Ok(
            source.subrange(
                location.offset as int,
                (location.offset + location.size_compressed) as int,
            ),
        )
    }
}

/// The content that the outcome of an inflation stands for.
pub open spec fn spec_content_from_inflated(inflated: Option<Seq<u8>>) -> Result<
    Seq<u8>,
    ThorError,
> {
    match inflated {
        Some(content) => Ok(content),
        None => Err(ThorError::DecompressionFailure),
    }
}

/// The content of the entry under `path`, read from `source`.
pub open spec fn spec_file_content(
    container: ContainerView,
    content_start: nat,
    source: Seq<u8>,
    path: Seq<char>,
) -> Result<Seq<u8>, ThorError> {
    match spec_locate_content(container, content_start, path) {
        Ok(location) => match spec_stored_content(source, location) {
            Ok(stored) => spec_content_from_inflated(zlib_inflated(stored)),
            Err(e) => Err(e),
        },
        Err(e) => Err(e),
    }
}

/// Cuts the compressed content at a location out of a byte source held in
/// memory.
pub fn stored_content(source: &[u8], location: ContentLocation) -> (r: Result<&[u8], ThorError>)
    ensures
        match r {
            Ok(stored) => spec_stored_content(source@, location@) == Ok::<Seq<u8>, ThorError>(
                stored@,
            ),
            Err(e) => spec_stored_content(source@, location@) == Err::<Seq<u8>, ThorError>(e),
        },
{
    if location.offset > source.len() as u64 {
        return Err(ThorError::ShortRead);
    }
    let start: usize = location.offset as usize;
    if location.size_compressed > source.len() - start {
        return Err(ThorError::ShortRead);
    }
    Ok(slice_subrange(source, start, start + location.size_compressed))
}

/// Turns the outcome of an inflation into content or into
/// `DecompressionFailure`.
pub fn content_from_inflated(inflated: Option<Vec<u8>>) -> (r: Result<Vec<u8>, ThorError>)
    ensures
        match r {
            Ok(content) => spec_content_from_inflated(bytes_view(inflated)) == Ok::<
                Seq<u8>,
                ThorError,
            >(content@),
            Err(e) => spec_content_from_inflated(bytes_view(inflated)) == Err::<
                Seq<u8>,
                ThorError,
            >(e),
        },
{
    match inflated {
        Some(content) => Ok(content),
        None => Err(ThorError::DecompressionFailure),
    }
}

/// Inflates the compressed content of an entry.
pub fn inflate_content(stored: &[u8]) -> (r: Result<Vec<u8>, ThorError>)
    ensures
        match r {
            Ok(content) => spec_content_from_inflated(zlib_inflated(stored@)) == Ok::<
                Seq<u8>,
                ThorError,
            >(content@),
            Err(e) => spec_content_from_inflated(zlib_inflated(stored@)) == Err::<
                Seq<u8>,
                ThorError,
            >(e),
        },
{
    content_from_inflated(inflate(stored))
}

/// An archive that has been opened.
#[derive(Debug, PartialEq, Eq)]
pub struct ThorArchive {
    container: ThorContainer,
    content_start: u64,
}

impl View for ThorArchive {
    type V = ContainerView;

    closed spec fn view(&self) -> ContainerView {
        self.container@
    }
}

impl ThorArchive {
    /// The number of bytes that decoding the archive took. In a single-file
    /// archive the content of the one entry starts there.
    pub closed spec fn content_start(&self) -> nat {
        self.content_start as nat
    }

    /// Opens the archive that `buf` holds from its first byte on.
    pub fn new(buf: &[u8]) -> (r: Result<ThorArchive, ThorError>)
        ensures
            match r {
                Ok(archive) => {
                    &&& spec_thor_patch(buf@) matches Ok((container, rest))
                    &&& archive@ == container
                    &&& archive.content_start() == buf@.len() - rest.len()
                },
                Err(e) => spec_thor_patch(buf@) == Err::<(ContainerView, Seq<u8>), ThorError>(e),
            },
    {
        let (rest, container) = parse_thor_patch(buf)?;
        proof {
            lemma_rest_is_suffix(buf@);
        }
        let content_start: u64 = (buf.len() - rest.len()) as u64;
        Ok(ThorArchive { container, content_start })
    }

    /// The number of files that the header announces.
    pub fn file_count(&self) -> (count: usize)
        ensures
            count == self@.header.file_count,
    {
        self.container.header.file_count
    }

    /// The name of the target data store. Empty for the default store.
    pub fn target_grf_name(&self) -> (name: String)
        ensures
            name@ == self@.header.target_grf_name,
    {
        self.container.header.target_grf_name.clone()
    }

    /// The entry under the path, if the archive lists one.
    pub fn get_file_entry(&self, file_path: &str) -> (r: Option<&ThorEntry>)
        ensures
            match r {
                Some(entry) => {
                    &&& entry_map(self@.entries).contains_key(file_path@)
                    &&& entry@ == entry_map(self@.entries)[file_path@]
                },
                None => !entry_map(self@.entries).contains_key(file_path@),
            },
    {
        self.container.entries.get(file_path)
    }

    /// All entries: no two under one path, in the order in which their
    /// paths first came up in the archive.
    pub fn get_entries(&self) -> (all: &Vec<ThorEntry>)
        ensures
            entry_views(all@) == self@.entries,
            distinct_paths(self@.entries),
    {
        self.container.entries.entries()
    }

    /// Says where the content of the entry under the path lies in the byte
    /// source, for a caller that reads the source itself.
    pub fn locate_content(&self, file_path: &str) -> (r: Result<ContentLocation, ThorError>)
        ensures
            match r {
                Ok(location) => spec_locate_content(self@, self.content_start(), file_path@)
                    == Ok::<LocationView, ThorError>(location@),
                Err(e) => spec_locate_content(self@, self.content_start(), file_path@) == Err::<
                    LocationView,
                    ThorError,
                >(e),
            },
    {
        match self.container.entries.get(file_path) {
            Some(entry) => {
                if entry.is_removed {
                    Err(ThorError::EntryRemoved)
                } else {
                    let offset: u64 = match self.container.header.mode {
                        ThorMode::SingleFile => self.content_start,
                        _ => entry.offset,
                    };
                    Ok(ContentLocation { offset, size_compressed: entry.size_compressed })
                }
            },
            None => Err(ThorError::EntryNotFound),
        }
    }

    /// Retrieves the content of the entry under the path from `source`, the
    /// bytes that the archive was decoded from.
    pub fn read_file_content(&self, source: &[u8], file_path: &str) -> (r: Result<
        Vec<u8>,
        ThorError,
    >)
        ensures
            match r {
                Ok(content) => spec_file_content(
                    self@,
                    self.content_start(),
                    source@,
                    file_path@,
                ) == Ok::<Seq<u8>, ThorError>(content@),
                Err(e) => spec_file_content(self@, self.content_start(), source@, file_path@)
                    == Err::<Seq<u8>, ThorError>(e),
            },
    {
        let location = self.locate_content(file_path)?;
        let stored = stored_content(source, location)?;
        inflate_content(stored)
    }
}

/// A deletion marker has no content: retrieval answers `EntryRemoved`,
/// whatever the byte source holds.
pub proof fn lemma_removed_entry_has_no_content(
    container: ContainerView,
    content_start: nat,
    source: Seq<u8>,
    path: Seq<char>,
)
    requires
        entry_map(container.entries).contains_key(path),
        entry_map(container.entries)[path].is_removed,
    ensures
        spec_file_content(container, content_start, source, path) == Err::<Seq<u8>, ThorError>(
            ThorError::EntryRemoved,
        ),
{
}

/// Where the stored bytes of an entry inflate to as many bytes as the entry
/// announces, retrieval returns them: a sequence of `size_decompressed`
/// bytes, however many bytes `size_compressed` made it read.
pub proof fn lemma_content_has_announced_size(
    container: ContainerView,
    content_start: nat,
    source: Seq<u8>,
    path: Seq<char>,
)
    requires
        spec_locate_content(container, content_start, path) is Ok,
        spec_stored_content(
            source,
            spec_locate_content(container, content_start, path)->Ok_0,
        ) is Ok,
        zlib_inflated(
            spec_stored_content(
                source,
                spec_locate_content(container, content_start, path)->Ok_0,
            )->Ok_0,
        ) is Some,
        zlib_inflated(
            spec_stored_content(
                source,
                spec_locate_content(container, content_start, path)->Ok_0,
            )->Ok_0,
        )->0.len() == entry_map(container.entries)[path].size_decompressed,
    ensures
        spec_file_content(container, content_start, source, path) is Ok,
        spec_file_content(container, content_start, source, path)->Ok_0.len() == entry_map(
            container.entries,
        )[path].size_decompressed,
{
}

/// The content of a single-file archive is read from behind the record of
/// its entry: retrieval from the bytes `s` of the archive inflates the
/// `size_compressed` bytes that decoding left over, and is `ShortRead`
/// where fewer are left.
pub proof fn lemma_single_file_content(s: Seq<u8>)
    requires
        spec_thor_patch(s) is Ok,
        spec_thor_patch(s)->Ok_0.0.header.mode == ThorMode::SingleFile,
    ensures
        ({
            let (container, rest) = spec_thor_patch(s)->Ok_0;
            let entry = container.entries[0];
            let content = spec_file_content(
                container,
                (s.len() - rest.len()) as nat,
                s,
                entry.relative_path,
            );
            if entry.size_compressed > rest.len() {
                content == Err::<Seq<u8>, ThorError>(ThorError::ShortRead)
            } else {
                content == spec_content_from_inflated(
                    zlib_inflated(rest.take(entry.size_compressed as int)),
                )
            }
        }),
{
    let (container, rest) = spec_thor_patch(s)->Ok_0;
    let entry = container.entries[0];
    lemma_rest_is_suffix(s);
    lemma_entry_map_last_wins(container.entries, 0);
    if entry.size_compressed <= rest.len() {
        let start = s.len() - rest.len();
        assert(s.subrange(start, start + entry.size_compressed) =~= rest.take(
            entry.size_compressed as int,
        ));
    }
}

} // verus!
