//! Decoder for THOR patch archives.
//!
//! A THOR archive bundles files, and markers for files to delete, for later
//! application to a target data store. This crate turns the bytes of an
//! archive into a [`ThorContainer`] and retrieves the content of single
//! entries. It reads archives only.
pub mod archive;
pub mod container;
pub mod entry;
pub mod error;
pub mod file_table;
pub mod header;
pub mod index;
pub mod table;
pub mod text;
pub mod wire;
pub mod zlib;

pub use crate::archive::{ContentLocation, ThorArchive};
pub use crate::container::{parse_thor_patch, ThorContainer};
pub use crate::entry::ThorEntry;
pub use crate::error::ThorError;
pub use crate::header::{ThorHeader, ThorMode};
pub use crate::index::EntryIndex;
pub use crate::table::{MultipleFilesTableDesc, SingleFileTableDesc, ThorTable};
