//! The optional stylesheet carried into the archive as `OEBPS/style.css`.

use vstd::prelude::*;

verus! {

use crate::file_content::FileContent;

/// The raw bytes of the book's stylesheet.
#[derive(Debug, Clone)]
pub struct Stylesheet {
    /// The stylesheet text, as bytes.
    pub body: Vec<u8>,
}

impl Stylesheet {
    /// Creates a stylesheet from its raw bytes.
    pub fn new(body: Vec<u8>) -> (r: Stylesheet)
        ensures
            r.body == body,
    {
        Self { body }
    }

    /// The archive file this stylesheet becomes.
    pub fn file_content<'a>(&'a self) -> (r: FileContent<&'a str, &'a [u8]>)
        ensures
            r.filepath@ == "OEBPS/style.css"@,
            r.bytes@ == self.body@,
    {
        FileContent::new("OEBPS/style.css", self.body.as_slice())
    }
}

} // verus!
