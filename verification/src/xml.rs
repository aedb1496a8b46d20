//! The XML pretty-printing step that every generated document runs through
//! before it is written into the archive.

use vstd::prelude::*;

verus! {

/// What the XML formatter returns on a document it accepts: the same
/// document re-serialised with two-space indentation and trimmed text
/// nodes. The result depends on the input text alone.
pub uninterp spec fn pretty_xml(s: Seq<char>) -> Seq<char>;

/// Whether the XML formatter accepts a document: reading it yields events
/// down to its end without a parse error. Acceptance depends on the input
/// text alone.
pub uninterp spec fn pretty_ok(s: Seq<char>) -> bool;

/// Formats an XML document, adding indentation and trimming text content.
///
/// Relies on quick_xml: `Reader::read_event` yields the events of the
/// input document, or fails on malformed XML with the byte offset of the
/// failure, and `Writer::write_event` re-serialises them with the
/// configured two-space indentation. Reading, writing and the in-memory
/// buffer are all deterministic in the input text, so both acceptance and
/// the formatted result are functions of it alone.
#[verifier::external_body]
pub fn format(xml_data: &str) -> (r: Result<String, crate::Error>)
    ensures
        r is Ok <==> pretty_ok(xml_data@),
        r matches Ok(out) ==> out@ == pretty_xml(xml_data@),
        r matches Err(e) ==> (e matches crate::Error::XmlParser(..) || e matches crate::Error::Io(
            ..,
        ) || e matches crate::Error::Utf8),
{
    let mut reader = quick_xml::Reader::from_str(xml_data);
    reader.config_mut().trim_text(true);
    let mut writer = quick_xml::Writer::new_with_indent(std::io::Cursor::new(Vec::new()), b' ', 2);
    loop {
        match reader.read_event() {
            Ok(quick_xml::events::Event::Eof) => break,
            Ok(event) => writer.write_event(event).map_err(|e| crate::Error::Io(format!("{e}")))?,
            Err(e) => return Err(crate::Error::XmlParser(reader.buffer_position(), format!("{e}"))),
        }
    }
    String::from_utf8(writer.into_inner().into_inner()).map_err(|_| crate::Error::Utf8)
}

/// Decodes a byte slice as UTF-8 text.
///
/// Relies on std::str::from_utf8: it succeeds exactly on valid UTF-8 input
/// and returns the decoded text of those bytes.
#[verifier::external_body]
pub fn bytes_to_str(v: &[u8]) -> (r: Result<&str, crate::Error>)
    ensures
        r matches Ok(s) ==> vstd::utf8::valid_utf8(v@) && s@ == vstd::utf8::decode_utf8(v@),
        r matches Err(e) ==> !vstd::utf8::valid_utf8(v@) && e == crate::Error::Utf8,
{
    std::str::from_utf8(v).map_err(|_| crate::Error::Utf8)
}

} // verus!
