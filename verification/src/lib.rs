//! Building EPUB (2.0.1) archives from an in-memory document model.
//!
//! The library models a book as descriptive metadata, an optional stylesheet,
//! an optional cover image, auxiliary resources and an ordered forest of
//! content units, and turns that model into the fixed sequence of archive
//! entries that the EPUB container format demands: `mimetype` first and
//! stored, the container and display-option files, the resources, one
//! XHTML document per content unit in pre-order numbering, the OPF package
//! document and the NCX navigation map last.

use vstd::prelude::*;

pub mod content;
pub mod content_reference;
pub mod creator;
pub mod epub_builder;
pub mod file_content;
pub mod metadata;
pub mod opf;
pub mod ncx;
pub mod numbering;
pub mod resource;
pub mod stylesheet;
pub mod xml;

verus! {

/// Error type for all fallible operations in this crate.
///
/// Failures coming from outside collaborators (file reads, the ZIP writer,
/// the XML formatter) are carried as plain values: a description string and,
/// for XML parsing, the byte offset at which reading the document failed.
#[derive(Debug, Clone, PartialEq)]
pub enum Error {
    /// An I/O failure while reading a resource or writing the output sink.
    Io(String),
    /// A failure reported by the ZIP archive writer.
    Zip(String),
    /// A content body was not valid UTF-8 text.
    Utf8,
    /// A resource path held no extractable filename; carries the path.
    FilenameNotFound(String),
    /// An explicit content filename did not end with the content-document
    /// extension; carries the offending filename.
    ContentFilename(String),
    /// The XML formatter failed at the given byte offset.
    XmlParser(u64, String),
}

} // verus!
