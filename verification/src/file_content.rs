//! Files of the archive as path/content pairs, the fixed preamble files,
//! and a small appending builder for generated XML text.

use vstd::prelude::*;

verus! {

use vstd::string::StringExecFns;

/// A single file within the archive: its path and its content bytes. The
/// type parameters leave the path (`F`) and the content (`B`) flexible:
/// borrowed text for the fixed preamble files, owned text or bytes for the
/// generated ones.
#[derive(Debug)]
pub struct FileContent<F, B> {
    /// The path of the file inside the archive, e.g. "OEBPS/content.opf".
    pub filepath: F,
    /// The content of the file.
    pub bytes: B,
}

impl<F, B> FileContent<F, B> {
    /// Creates a new file entry from its path and content.
    pub fn new(filepath: F, bytes: B) -> (r: FileContent<F, B>)
        ensures
            r.filepath == filepath,
            r.bytes == bytes,
    {
        Self { filepath, bytes }
    }

    /// Replaces the content with new bytes, keeping the path.
    pub fn format(&mut self, bytes: B)
        ensures
            final(self).filepath == old(self).filepath,
            final(self).bytes == bytes,
    {
        self.bytes = bytes;
    }
}

/// The text of the fixed `container.xml` preamble file, pointing at the
/// OPF package document.
pub open spec fn container_text() -> Seq<char> {
    "<?xml version=\"1.0\" encoding=\"UTF-8\"?>\n<container version=\"1.0\" xmlns=\"urn:oasis:names:tc:opendocument:xmlns:container\">\n    <rootfiles>\n        <rootfile full-path=\"OEBPS/content.opf\" media-type=\"application/oebps-package+xml\"/>\n   </rootfiles>\n</container>\n        "@
}

/// The text of the fixed `mimetype` file.
pub open spec fn mimetype_text() -> Seq<char> {
    "application/epub+zip"@
}

/// The text of the fixed display-options file.
pub open spec fn display_options_text() -> Seq<char> {
    "<?xml version=\"1.0\" encoding=\"utf-8\"?>\n<display_options>\n\t<platform name=\"*\">\n\t\t<option name=\"specified-fonts\">true</option>\n\t</platform>\n</display_options>\n        "@
}

/// The mandatory `container.xml` file, which locates the OPF package
/// document.
pub fn container<'a>() -> (r: FileContent<&'a str, &'a [u8]>)
    ensures
        r.filepath@ == "META-INF/container.xml"@,
        r.bytes@ == vstd::utf8::encode_utf8(container_text()),
{
    let text: &str =
        "<?xml version=\"1.0\" encoding=\"UTF-8\"?>\n<container version=\"1.0\" xmlns=\"urn:oasis:names:tc:opendocument:xmlns:container\">\n    <rootfiles>\n        <rootfile full-path=\"OEBPS/content.opf\" media-type=\"application/oebps-package+xml\"/>\n   </rootfiles>\n</container>\n        ";
    FileContent::new("META-INF/container.xml", text.as_bytes())
}

/// The mandatory `mimetype` file. It must be the first entry of the
/// archive and must be stored uncompressed.
pub fn mimetype<'a>() -> (r: FileContent<&'a str, &'a [u8]>)
    ensures
        r.filepath@ == "mimetype"@,
        r.bytes@ == vstd::utf8::encode_utf8(mimetype_text()),
{
    let text: &str = "application/epub+zip";
    FileContent::new("mimetype", text.as_bytes())
}

/// The display-options file, which asks reading systems that honour it to
/// use the specified fonts.
pub fn display_options<'a>() -> (r: FileContent<&'a str, &'a [u8]>)
    ensures
        r.filepath@ == "META-INF/com.apple.ibooks.display-options.xml"@,
        r.bytes@ == vstd::utf8::encode_utf8(display_options_text()),
{
    let text: &str =
        "<?xml version=\"1.0\" encoding=\"utf-8\"?>\n<display_options>\n\t<platform name=\"*\">\n\t\t<option name=\"specified-fonts\">true</option>\n\t</platform>\n</display_options>\n        ";
    FileContent::new("META-INF/com.apple.ibooks.display-options.xml", text.as_bytes())
}

/// An appending builder for generated XML text.
#[derive(Debug)]
pub struct ContentBuilder(pub String);

impl ContentBuilder {
    /// Appends `value` to the built text.
    pub fn add(&mut self, value: &str)
        ensures
            final(self).0@ == old(self).0@ + value@,
    {
        self.0.append(value);
    }

    /// Appends the string held by `value`, if any.
    pub fn add_optional(&mut self, value: Option<&String>)
        ensures
            final(self).0@ == old(self).0@ + match value {
                Some(v) => v@,
                None => Seq::empty(),
            },
    {
        match value {
            Some(v) => {
                self.0.append(v.as_str());
            },
            None => {
                proof {
                    assert(old(self).0@ + Seq::<char>::empty() =~= old(self).0@);
                }
            },
        }
    }

    /// Appends `value` only when `some` holds a value.
    pub fn add_if_some<T>(&mut self, value: &str, some: &Option<T>)
        ensures
            final(self).0@ == old(self).0@ + if some is Some {
                value@
            } else {
                Seq::empty()
            },
    {
        match some {
            Some(_) => {
                self.0.append(value);
            },
            None => {
                proof {
                    assert(old(self).0@ + Seq::<char>::empty() =~= old(self).0@);
                }
            },
        }
    }

    /// Consumes the builder and returns the assembled text.
    pub fn build(self) -> (r: String)
        ensures
            r == self.0,
    {
        self.0
    }
}

} // verus!
