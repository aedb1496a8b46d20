//! The archive packager: it lays the generated and caller-supplied files
//! out in the fixed order the container format demands, with the mimetype
//! entry first and always stored, and only then encodes them into one
//! in-memory ZIP archive, so that nothing reaches the output sink unless
//! every step succeeded.

use vstd::prelude::*;

verus! {

use vstd::string::{StringExecFns, StrSliceExecFns};
use vstd::utf8::encode_utf8;
use crate::Error;
use crate::content::{
    Content,
    count_node,
    count_seq,
    bodies_utf8_node,
    bodies_utf8_seq,
    docs_ok_node,
    docs_ok_seq,
    lemma_bodies_utf8_seq_all,
    lemma_bodies_utf8_seq_at,
    lemma_docs_ok_seq_all,
    lemma_docs_ok_seq_at,
    files_node,
    files_seq,
    file_views,
};
use crate::epub_builder::{Epub, contents_seq, resources_seq, doc_level};
use crate::file_content::{FileContent, container_text, mimetype_text, display_options_text};
use crate::ncx::{ncx_xml, nav_count_seq};
use crate::opf::{opf_xml, ok_seq, first_bad_seq};
use crate::resource::{Resource, res_filename, res_path};
use crate::xml::{pretty_ok, pretty_xml};

/// The compression method used for the archive's entries. The mimetype
/// entry is always stored, whatever is chosen here.
#[derive(Debug, Clone, Copy, PartialEq, Eq, Structural)]
pub enum ZipCompression {
    /// Deflate compression, for smaller archives.
    Deflated,
    /// No compression.
    Stored,
}

impl Default for ZipCompression {
    /// Stored: no compression.
    fn default() -> (r: Self)
        ensures
            r is Stored,
    {
        ZipCompression::Stored
    }
}

/// Whether entries written under this compression choice are stored
/// uncompressed.
pub open spec fn stored_flag(c: ZipCompression) -> bool {
    c is Stored
}

/// One planned archive entry: its path, its bytes, and whether it is to
/// be stored uncompressed rather than deflated.
#[derive(Debug)]
pub struct ArchiveEntry {
    /// The path of the entry inside the archive.
    pub path: String,
    /// The bytes of the entry.
    pub bytes: Vec<u8>,
    /// Whether the entry is stored uncompressed.
    pub stored: bool,
}

/// The path, bytes and stored flag of each planned entry.
pub open spec fn entry_views(v: Seq<ArchiveEntry>) -> Seq<(Seq<char>, Seq<u8>, bool)> {
    v.map_values(|e: ArchiveEntry| (e.path@, e.bytes@, e.stored))
}

/// The zip crate's archive writer over an in-memory buffer, held as an
/// opaque value; what it holds is tracked through `archive_entries`.
#[verifier::external_body]
pub struct ArchiveWriter {
    writer: zip::ZipWriter<std::io::Cursor<Vec<u8>>>,
}

/// What an in-memory archive writer holds: the path, bytes and
/// stored-or-deflated choice of each entry written so far, in order.
pub uninterp spec fn archive_entries(w: ArchiveWriter) -> Seq<(Seq<char>, Seq<u8>, bool)>;

/// Whether the archive writer, already holding `entries`, accepts
/// starting and writing one more entry. With the in-memory buffer this
/// depends on the entries alone.
pub uninterp spec fn zip_step_ok(
    entries: Seq<(Seq<char>, Seq<u8>, bool)>,
    entry: (Seq<char>, Seq<u8>, bool),
) -> bool;

/// Whether closing the archive after writing `entries` succeeds. With the
/// in-memory buffer this depends on the entries alone.
pub uninterp spec fn zip_fin_ok(entries: Seq<(Seq<char>, Seq<u8>, bool)>) -> bool;

/// The archive bytes the writer produces for `entries`. The writer stamps
/// every entry with its fixed default timestamp (no clock crate is
/// linked), so the bytes depend on the entries alone.
pub uninterp spec fn zip_bytes(entries: Seq<(Seq<char>, Seq<u8>, bool)>) -> Seq<u8>;

/// Whether the archive writer accepts the whole entry sequence: each
/// entry started and written after the ones before it, and the archive
/// then closed.
pub open spec fn zip_seq_ok(s: Seq<(Seq<char>, Seq<u8>, bool)>) -> bool {
    zip_adds_ok(s, 0) && zip_fin_ok(s)
}

/// Whether the writer accepts each of the entries `s[i..]`, written after
/// the ones before it.
pub open spec fn zip_adds_ok(s: Seq<(Seq<char>, Seq<u8>, bool)>, i: int) -> bool
    decreases s.len() - i,
{
    if 0 <= i < s.len() {
        zip_step_ok(s.take(i), s[i]) && zip_adds_ok(s, i + 1)
    } else {
        true
    }
}

/// An accepted prefix moves the question of acceptance to the rest.
proof fn lemma_zip_adds_skip(s: Seq<(Seq<char>, Seq<u8>, bool)>, i: int)
    requires
        0 <= i <= s.len(),
        forall|k: int| 0 <= k < i ==> zip_step_ok(s.take(k), #[trigger] s[k]),
    ensures
        zip_adds_ok(s, 0) <==> zip_adds_ok(s, i),
    decreases i,
{
    if i > 0 {
        lemma_zip_adds_skip_from(s, 0, i);
    }
}

proof fn lemma_zip_adds_skip_from(s: Seq<(Seq<char>, Seq<u8>, bool)>, j: int, i: int)
    requires
        0 <= j <= i <= s.len(),
        forall|k: int| j <= k < i ==> zip_step_ok(s.take(k), #[trigger] s[k]),
    ensures
        zip_adds_ok(s, j) <==> zip_adds_ok(s, i),
    decreases i - j,
{
    if j < i {
        lemma_zip_adds_skip_from(s, j + 1, i);
    }
}

/// Relies on zip::ZipWriter::new: a fresh writer over an empty in-memory
/// buffer holds no entries.
#[verifier::external_body]
fn archive_new() -> (w: ArchiveWriter)
    ensures
        archive_entries(w) == Seq::<(Seq<char>, Seq<u8>, bool)>::empty(),
{
    ArchiveWriter { writer: zip::ZipWriter::new(std::io::Cursor::new(Vec::new())) }
}

/// Relies on zip::ZipWriter::start_file and std::io::Write::write_all for
/// ZipWriter: starting a file begins one new entry under the given name,
/// written with the chosen compression method (stored or deflated), and
/// write_all makes the handed bytes its content.
#[verifier::external_body]
fn archive_add(
    w: &mut ArchiveWriter,
    path: &str,
    bytes: &[u8],
    compression: &ZipCompression,
) -> (r: Result<(), Error>)
    ensures
        r is Ok <==> zip_step_ok(
            archive_entries(*old(w)),
            (path@, bytes@, stored_flag(*compression)),
        ),
        r is Ok ==> archive_entries(*final(w)) == archive_entries(*old(w)).push(
            (path@, bytes@, stored_flag(*compression)),
        ),
        r matches Err(e) ==> (e matches Error::Zip(..) || e matches Error::Io(..)),
{
    let method = match compression {
        ZipCompression::Stored => zip::CompressionMethod::Stored,
        ZipCompression::Deflated => zip::CompressionMethod::Deflated,
    };
    let options = zip::write::SimpleFileOptions::default()
        .compression_method(method)
        .unix_permissions(0o755);
    if let Err(e) = w.writer.start_file(path, options) {
        return Err(Error::Zip(format!("{e}")));
    }
    if let Err(e) = std::io::Write::write_all(&mut w.writer, bytes) {
        return Err(Error::Io(format!("{e}")));
    }
    Ok(())
}

/// Relies on zip::ZipWriter::finish: closing the archive writes the
/// central directory and hands back the buffer holding the whole archive.
#[verifier::external_body]
fn archive_finish(w: ArchiveWriter) -> (r: Result<Vec<u8>, Error>)
    ensures
        r is Ok <==> zip_fin_ok(archive_entries(w)),
        r matches Ok(b) ==> b@ == zip_bytes(archive_entries(w)),
        r matches Err(e) ==> e matches Error::Zip(..),
{
    match w.writer.finish() {
        Ok(cursor) => Ok(cursor.into_inner()),
        Err(e) => Err(Error::Zip(format!("{e}"))),
    }
}

/// Encodes the planned entries, in order, into one in-memory ZIP archive.
/// It succeeds exactly when the writer accepts the whole sequence, and
/// the bytes handed back are the writer's encoding of it.
#[verifier::rlimit(100)]
fn zip_entries(entries: &Vec<ArchiveEntry>) -> (r: Result<Vec<u8>, Error>)
    ensures
        r is Ok <==> zip_seq_ok(entry_views(entries@)),
        r matches Ok(b) ==> b@ == zip_bytes(entry_views(entries@)),
        r matches Err(e) ==> (e matches Error::Zip(..) || e matches Error::Io(..)),
{
    let mut w = archive_new();
    let ghost evs = entry_views(entries@);
    let mut i: usize = 0;
    while i < entries.len()
        invariant
            evs == entry_views(entries@),
            0 <= i <= entries@.len(),
            archive_entries(w) == evs.take(i as int),
            forall|k: int| 0 <= k < i ==> zip_step_ok(evs.take(k), #[trigger] evs[k]),
        decreases entries@.len() - i,
    {
        let entry = &entries[i];
        let compression = if entry.stored {
            ZipCompression::Stored
        } else {
            ZipCompression::Deflated
        };
        proof {
            assert(evs[i as int] == (entry.path@, entry.bytes@, entry.stored));
        }
        match archive_add(&mut w, entry.path.as_str(), entry.bytes.as_slice(), &compression) {
            Ok(_) => {
                proof {
                    assert(zip_step_ok(evs.take(i as int), evs[i as int]));
                    assert(evs.take(i + 1) =~= evs.take(i as int).push(
                        (entry.path@, entry.bytes@, entry.stored),
                    ));
                }
            },
            Err(e) => {
                proof {
                    assert(!zip_step_ok(evs.take(i as int), evs[i as int]));
                    lemma_zip_adds_skip(evs, i as int);
                    assert(!zip_adds_ok(evs, i as int));
                    assert(!zip_seq_ok(evs));
                }
                return Err(e);
            },
        }
        i = i + 1;
    }
    proof {
        // The writer received exactly the planned entries, in order.
        assert(archive_entries(w) =~= entry_views(entries@));
        lemma_zip_adds_skip(evs, evs.len() as int);
        assert(zip_adds_ok(evs, 0));
    }
    archive_finish(w)
}

/// The three fixed preamble entries: the mimetype, always stored, then
/// the container and display-options files under the chosen compression.
pub open spec fn fixed_entries(comp: ZipCompression) -> Seq<(Seq<char>, Seq<u8>, bool)> {
    seq![
        ("mimetype"@, encode_utf8(mimetype_text()), true),
        ("META-INF/container.xml"@, encode_utf8(container_text()), stored_flag(comp)),
        (
            "META-INF/com.apple.ibooks.display-options.xml"@,
            encode_utf8(display_options_text()),
            stored_flag(comp),
        ),
    ]
}

/// The stylesheet entry, when a stylesheet is set.
pub open spec fn style_entries(e: Epub, comp: ZipCompression) -> Seq<(Seq<char>, Seq<u8>, bool)> {
    match e.stylesheet {
        Some(b) => seq![("OEBPS/style.css"@, b@, stored_flag(comp))],
        None => Seq::empty(),
    }
}

/// The cover entry, when a cover image is set; its bytes are the ones the
/// caller read for it.
pub open spec fn cover_entries(e: Epub, cover_bytes: Seq<u8>, comp: ZipCompression) -> Seq<
    (Seq<char>, Seq<u8>, bool),
> {
    match e.cover_image {
        Some(c) => match res_filename(c) {
            Some(f) => seq![("OEBPS/"@ + f, cover_bytes, stored_flag(comp))],
            None => Seq::empty(),
        },
        None => Seq::empty(),
    }
}

/// The resource entries `rs[i..]`, each under `OEBPS/` with the bytes the
/// caller read for it.
pub open spec fn res_entries(
    rs: Seq<Resource>,
    datas: Seq<Seq<u8>>,
    i: int,
    comp: ZipCompression,
) -> Seq<(Seq<char>, Seq<u8>, bool)>
    decreases rs.len() - i,
{
    if 0 <= i < rs.len() {
        (match res_filename(rs[i]) {
            Some(f) => seq![("OEBPS/"@ + f, datas[i], stored_flag(comp))],
            None => Seq::empty(),
        }) + res_entries(rs, datas, i + 1, comp)
    } else {
        Seq::empty()
    }
}

/// Text files as archive entries: each path with the UTF-8 encoding of
/// its document text.
pub open spec fn text_entries(fs: Seq<(Seq<char>, Seq<char>)>, comp: ZipCompression) -> Seq<
    (Seq<char>, Seq<u8>, bool),
> {
    fs.map_values(|f: (Seq<char>, Seq<char>)| (f.0, encode_utf8(f.1), stored_flag(comp)))
}

proof fn lemma_text_entries_concat(
    a: Seq<(Seq<char>, Seq<char>)>,
    b: Seq<(Seq<char>, Seq<char>)>,
    comp: ZipCompression,
)
    ensures
        text_entries(a + b, comp) =~= text_entries(a, comp) + text_entries(b, comp),
{
}

/// The full planned archive of a document: the fixed preamble, the
/// stylesheet, the cover, the resources, the content documents in
/// numbering order, the package document, and the navigation map last.
pub open spec fn plan_views(
    e: Epub,
    cover_bytes: Seq<u8>,
    datas: Seq<Seq<u8>>,
    comp: ZipCompression,
) -> Seq<(Seq<char>, Seq<u8>, bool)> {
    fixed_entries(comp) + style_entries(e, comp) + cover_entries(e, cover_bytes, comp)
        + res_entries(resources_seq(e), datas, 0, comp) + text_entries(
        files_seq(contents_seq(e), 0, 0, e.stylesheet is Some),
        comp,
    ) + seq![
        ("OEBPS/content.opf"@, encode_utf8(pretty_xml(opf_xml(e))), stored_flag(comp)),
        ("OEBPS/toc.ncx"@, encode_utf8(pretty_xml(ncx_xml(e))), stored_flag(comp)),
    ]
}

/// Law: whatever the caller's compression choice, the cover and resource
/// bytes, and the rest of the document, the planned archive starts with
/// the mimetype entry, stored uncompressed.
pub proof fn lemma_mimetype_first(
    e: Epub,
    cover_bytes: Seq<u8>,
    datas: Seq<Seq<u8>>,
    comp: ZipCompression,
)
    ensures
        plan_views(e, cover_bytes, datas, comp).len() >= 1,
        plan_views(e, cover_bytes, datas, comp)[0] == (
            "mimetype"@,
            encode_utf8(mimetype_text()),
            true,
        ),
{
    assert(fixed_entries(comp)[0] == ("mimetype"@, encode_utf8(mimetype_text()), true));
}

/// The bytes each load yielded; empty in place of a failed load.
pub open spec fn load_views(datas: Seq<Result<Vec<u8>, Error>>) -> Seq<Seq<u8>> {
    datas.map_values(
        |r: Result<Vec<u8>, Error>|
            match r {
                Ok(b) => b@,
                Err(_) => Seq::<u8>::empty(),
            },
    )
}

/// The bytes the cover load yielded; empty without a cover or on a failed
/// load.
pub open spec fn cover_view(cover_data: Option<Result<Vec<u8>, Error>>) -> Seq<u8> {
    match cover_data {
        Some(Ok(b)) => b@,
        _ => Seq::empty(),
    }
}

/// Whether any resource in `rs[i..]` has no extractable filename or a
/// failed load.
pub open spec fn res_has_err(rs: Seq<Resource>, rd: Seq<Result<Vec<u8>, Error>>, i: int) -> bool
    decreases rs.len() - i,
{
    if 0 <= i < rs.len() {
        res_filename(rs[i]) is None || rd[i] is Err || res_has_err(rs, rd, i + 1)
    } else {
        false
    }
}

/// Whether the cover, if any, has an extractable filename and a
/// successful load.
pub open spec fn cover_ok(e: Epub, cover_data: Option<Result<Vec<u8>, Error>>) -> bool {
    match e.cover_image {
        Some(c) => res_filename(c) is Some && (cover_data matches Some(Ok(_))),
        None => true,
    }
}

/// Whether the cover or any resource has no extractable filename or a
/// failed load.
pub open spec fn has_load_err(
    e: Epub,
    cover_data: Option<Result<Vec<u8>, Error>>,
    rd: Seq<Result<Vec<u8>, Error>>,
) -> bool {
    !cover_ok(e, cover_data) || res_has_err(resources_seq(e), rd, 0)
}

/// Whether `er` is the first failure among the resource loads `rs[i..]`,
/// in order: a missing filename before that resource's failed load.
pub open spec fn res_load_err_ok(
    er: Error,
    rs: Seq<Resource>,
    rd: Seq<Result<Vec<u8>, Error>>,
    i: int,
) -> bool
    decreases rs.len() - i,
{
    if 0 <= i < rs.len() {
        if res_filename(rs[i]) is None {
            er matches Error::FilenameNotFound(p) && p@ == res_path(rs[i])
        } else {
            match rd[i] {
                Err(e0) => er == e0,
                Ok(_) => res_load_err_ok(er, rs, rd, i + 1),
            }
        }
    } else {
        false
    }
}

/// Whether `er` is the first failure among the cover and resource loads,
/// in packaging order: the cover's missing filename, then its failed
/// load, then the resources in declaration order.
pub open spec fn load_err_ok(
    er: Error,
    e: Epub,
    cover_data: Option<Result<Vec<u8>, Error>>,
    rd: Seq<Result<Vec<u8>, Error>>,
) -> bool {
    match e.cover_image {
        Some(c) => {
            if res_filename(c) is None {
                er matches Error::FilenameNotFound(p) && p@ == res_path(c)
            } else {
                match cover_data {
                    Some(Err(e0)) => er == e0,
                    _ => res_load_err_ok(er, resources_seq(e), rd, 0),
                }
            }
        },
        None => res_load_err_ok(er, resources_seq(e), rd, 0),
    }
}

/// A prefix of sound resources moves the first failure to the rest.
proof fn lemma_res_err_skip(er: Error, rs: Seq<Resource>, rd: Seq<Result<Vec<u8>, Error>>, k: int)
    requires
        0 <= k <= rs.len(),
        forall|j: int|
            0 <= j < k ==> res_filename(#[trigger] rs[j]) is Some && rd[j] is Ok,
    ensures
        res_has_err(rs, rd, 0) <==> res_has_err(rs, rd, k),
        res_load_err_ok(er, rs, rd, 0) <==> res_load_err_ok(er, rs, rd, k),
    decreases k,
{
    if k > 0 {
        lemma_res_err_skip_from(er, rs, rd, 0, k);
    }
}

proof fn lemma_res_err_skip_from(
    er: Error,
    rs: Seq<Resource>,
    rd: Seq<Result<Vec<u8>, Error>>,
    j: int,
    k: int,
)
    requires
        0 <= j <= k <= rs.len(),
        forall|m: int|
            j <= m < k ==> res_filename(#[trigger] rs[m]) is Some && rd[m] is Ok,
    ensures
        res_has_err(rs, rd, j) <==> res_has_err(rs, rd, k),
        res_load_err_ok(er, rs, rd, j) <==> res_load_err_ok(er, rs, rd, k),
    decreases k - j,
{
    if j < k {
        lemma_res_err_skip_from(er, rs, rd, j + 1, k);
    }
}

/// Appends one archive entry per resource, each validated for an
/// extractable filename and filled with the bytes its load yielded; the
/// first missing filename or failed load aborts the walk.
#[verifier::loop_isolation(false)]
#[verifier::rlimit(100)]
fn push_resource_entries(
    entries: &mut Vec<ArchiveEntry>,
    resources: &Vec<Resource>,
    resource_data: Vec<Result<Vec<u8>, Error>>,
    compression: ZipCompression,
) -> (r: Result<(), Error>)
    requires
        resource_data@.len() == resources@.len(),
    ensures
        r is Ok ==> entry_views(final(entries)@) == entry_views(old(entries)@) + res_entries(
            resources@,
            load_views(resource_data@),
            0,
            compression,
        ) && !res_has_err(resources@, resource_data@, 0),
        res_has_err(resources@, resource_data@, 0) ==> (r matches Err(er) && res_load_err_ok(
            er,
            resources@,
            resource_data@,
            0,
        )),
        r matches Err(er) ==> res_has_err(resources@, resource_data@, 0) && res_load_err_ok(
            er,
            resources@,
            resource_data@,
            0,
        ),
{
    let ghost rs = resources@;
    let ghost rd_full = resource_data@;
    let ghost datas = load_views(rd_full);
    let ghost e0 = entry_views(entries@);
    let ghost comp = compression;
    let stored_all = match compression {
        ZipCompression::Stored => true,
        ZipCompression::Deflated => false,
    };
    let mut resource_data = resource_data;
    let mut k: usize = 0;
    while k < resources.len()
        invariant
            0 <= k <= rs.len(),
            resource_data@ == rd_full.skip(k as int),
            forall|j: int| 0 <= j < k ==> res_filename(#[trigger] rs[j]) is Some && rd_full[j] is Ok,
            e0 + res_entries(rs, datas, 0, comp) == entry_views(entries@) + res_entries(
                rs,
                datas,
                k as int,
                comp,
            ),
        decreases rs.len() - k,
    {
        proof {
            assert(rd_full[k as int] == resource_data@[0]);
        }
        let filename = match resources[k].filename() {
            Ok(f) => f,
            Err(e) => {
                proof {
                    lemma_res_err_skip(e, rs, rd_full, k as int);
                }
                return Err(e);
            },
        };
        let item = resource_data.remove(0);
        let bytes = match item {
            Ok(b) => b,
            Err(e) => {
                proof {
                    lemma_res_err_skip(e, rs, rd_full, k as int);
                }
                return Err(e);
            },
        };
        let mut path = String::from_str("OEBPS/");
        path.append(filename.as_str());
        entries.push(ArchiveEntry { path, bytes, stored: stored_all });
        proof {
            assert(datas[k as int] == bytes@);
            assert(res_entries(rs, datas, k as int, comp) == seq![
                ("OEBPS/"@ + res_filename(rs[k as int]).unwrap(), datas[k as int], stored_flag(comp)),
            ] + res_entries(rs, datas, k + 1, comp));
            assert(e0 + res_entries(rs, datas, 0, comp) =~= entry_views(entries@) + res_entries(
                rs,
                datas,
                k + 1,
                comp,
            ));
            assert(resource_data@ =~= rd_full.skip(k + 1));
        }
        k = k + 1;
    }
    proof {
        assert(res_entries(rs, datas, rs.len() as int, comp) =~= Seq::<
            (Seq<char>, Seq<u8>, bool),
        >::empty());
        assert(entry_views(entries@) =~= e0 + res_entries(rs, datas, 0, comp));
        lemma_res_err_skip(Error::Utf8, rs, rd_full, rs.len() as int);
        assert(!res_has_err(rs, rd_full, 0));
    }
    Ok(())
}

/// Serialises every content subtree into formatted documents and appends
/// them as archive entries in pre-order numbering. It succeeds exactly
/// when every body is valid UTF-8 and the formatter accepts every
/// generated document.
#[verifier::loop_isolation(false)]
#[verifier::rlimit(100)]
fn push_content_entries(
    entries: &mut Vec<ArchiveEntry>,
    contents: &Vec<Content>,
    add_stylesheet: bool,
    compression: ZipCompression,
) -> (r: Result<(), Error>)
    requires
        count_seq(contents@, 0) <= usize::MAX,
    ensures
        r is Ok <==> bodies_utf8_seq(contents@, 0) && docs_ok_seq(contents@, 0, add_stylesheet),
        r is Ok ==> entry_views(final(entries)@) == entry_views(old(entries)@) + text_entries(
            files_seq(contents@, 0, 0, add_stylesheet),
            compression,
        ),
        r matches Err(e) ==> (e matches Error::Utf8 || e matches Error::XmlParser(..)
            || e matches Error::Io(..)),
{
    let ghost cs = contents@;
    let ghost e0 = entry_views(entries@);
    let ghost comp = compression;
    let stored_all = match compression {
        ZipCompression::Stored => true,
        ZipCompression::Deflated => false,
    };
    let mut file_number: usize = 0;
    let mut i: usize = 0;
    while i < contents.len()
        invariant
            0 <= i <= cs.len(),
            file_number + count_seq(cs, i as int) <= usize::MAX,
            file_number as nat == count_seq(cs, 0) - count_seq(cs, i as int),
            forall|j: int|
                0 <= j < i ==> bodies_utf8_node(#[trigger] cs[j]) && docs_ok_node(
                    #[trigger] cs[j],
                    add_stylesheet,
                ),
            e0 + text_entries(files_seq(cs, 0, 0, add_stylesheet), comp) == entry_views(entries@)
                + text_entries(files_seq(cs, i as int, file_number as nat, add_stylesheet), comp),
        decreases cs.len() - i,
    {
        let ghost n_here = file_number as nat;
        assert(count_seq(cs, i as int) == count_node(cs[i as int]) + count_seq(cs, i + 1));
        let files = match contents[i].file_content(&mut file_number, add_stylesheet) {
            Ok(v) => v,
            Err(e) => {
                proof {
                    if bodies_utf8_seq(cs, 0) && docs_ok_seq(cs, 0, add_stylesheet) {
                        lemma_bodies_utf8_seq_at(cs, i as int);
                        lemma_docs_ok_seq_at(cs, i as int, add_stylesheet);
                        assert(false);
                    }
                }
                return Err(e);
            },
        };
        let ghost fvs = file_views(files@);
        let ghost pushed0 = entry_views(entries@);
        let mut t: usize = 0;
        while t < files.len()
            invariant
                0 <= t <= files@.len(),
                entry_views(entries@) == pushed0 + text_entries(fvs.take(t as int), comp),
            decreases files@.len() - t,
        {
            let fc = &files[t];
            let path = fc.filepath.clone();
            let bytes = fc.bytes.as_str().as_bytes_vec();
            let ghost bv = bytes@;
            entries.push(ArchiveEntry { path, bytes, stored: stored_all });
            proof {
                assert(fvs[t as int] == (fc.filepath@, fc.bytes@));
                assert(bv == encode_utf8(fc.bytes@));
                assert(text_entries(fvs.take(t + 1), comp) =~= text_entries(
                    fvs.take(t as int),
                    comp,
                ).push((fvs[t as int].0, encode_utf8(fvs[t as int].1), stored_flag(comp))));
                assert(entry_views(entries@) =~= (pushed0 + text_entries(
                    fvs.take(t as int),
                    comp,
                )).push((fc.filepath@, bv, stored_flag(comp))));
                assert(entry_views(entries@) =~= pushed0 + text_entries(fvs.take(t + 1), comp));
            }
            t = t + 1;
        }
        proof {
            assert(fvs.take(files@.len() as int) =~= fvs);
            assert(files_seq(cs, i as int, n_here, add_stylesheet) == files_node(
                cs[i as int],
                n_here,
                add_stylesheet,
            ) + files_seq(cs, i + 1, n_here + count_node(cs[i as int]), add_stylesheet));
            lemma_text_entries_concat(
                files_node(cs[i as int], n_here, add_stylesheet),
                files_seq(cs, i + 1, n_here + count_node(cs[i as int]), add_stylesheet),
                comp,
            );
            assert(e0 + text_entries(files_seq(cs, 0, 0, add_stylesheet), comp) =~= entry_views(
                entries@,
            ) + text_entries(files_seq(cs, i + 1, file_number as nat, add_stylesheet), comp));
        }
        i = i + 1;
    }
    proof {
        lemma_bodies_utf8_seq_all(cs);
        lemma_docs_ok_seq_all(cs, add_stylesheet);
        assert(files_seq(cs, cs.len() as int, file_number as nat, add_stylesheet) =~= Seq::<
            (Seq<char>, Seq<char>),
        >::empty());
        assert(text_entries(
            files_seq(cs, cs.len() as int, file_number as nat, add_stylesheet),
            comp,
        ) =~= Seq::<(Seq<char>, Seq<u8>, bool)>::empty());
        assert(entry_views(entries@) =~= e0 + text_entries(
            files_seq(cs, 0, 0, add_stylesheet),
            comp,
        ));
    }
    Ok(())
}

/// Whether every step of laying out the archive succeeds: sound cover
/// and resource loads, valid filename overrides, decodable bodies, and
/// the formatter accepting every generated document, the package document
/// and the navigation map.
pub open spec fn plan_ok(
    e: Epub,
    cover_data: Option<Result<Vec<u8>, Error>>,
    rd: Seq<Result<Vec<u8>, Error>>,
) -> bool {
    &&& !has_load_err(e, cover_data, rd)
    &&& ok_seq(contents_seq(e), 0)
    &&& bodies_utf8_seq(contents_seq(e), 0)
    &&& docs_ok_seq(contents_seq(e), 0, e.stylesheet is Some)
    &&& pretty_ok(opf_xml(e))
    &&& pretty_ok(ncx_xml(e))
}

/// The archive packager: the assembled document and the compression
/// choice for its entries.
#[derive(Debug)]
pub struct EpubFile {
    /// The document to be packaged.
    pub epub: Epub,
    /// The compression for every entry but the mimetype, which is always
    /// stored.
    pub compression: ZipCompression,
}

impl EpubFile {
    /// A packager for `epub` writing entries under `compression`.
    pub fn new(epub: Epub, compression: ZipCompression) -> (r: EpubFile)
        ensures
            r.epub == epub,
            r.compression == compression,
    {
        Self { epub, compression }
    }

    /// Lays out the whole archive as an ordered list of entries: the
    /// fixed preamble (mimetype first, always stored), the stylesheet,
    /// the cover, the resources, the content documents in numbering
    /// order, the package document and the navigation map. `cover_data`
    /// and `resource_data` carry the outcome of reading the cover and
    /// each resource, in declaration order; the first failure among them
    /// aborts the plan, as does any generation failure.
    #[verifier::rlimit(100)]
    pub fn plan(
        &self,
        cover_data: Option<Result<Vec<u8>, Error>>,
        resource_data: Vec<Result<Vec<u8>, Error>>,
    ) -> (r: Result<Vec<ArchiveEntry>, Error>)
        requires
            cover_data is Some <==> self.epub.cover_image is Some,
            resource_data@.len() == resources_seq(self.epub).len(),
            count_seq(contents_seq(self.epub), 0) <= usize::MAX,
            nav_count_seq(contents_seq(self.epub), 0) <= usize::MAX,
            doc_level(self.epub) <= usize::MAX,
        ensures
            r is Ok <==> plan_ok(self.epub, cover_data, resource_data@),
            r matches Ok(v) ==> entry_views(v@) == plan_views(
                self.epub,
                cover_view(cover_data),
                load_views(resource_data@),
                self.compression,
            ),
            has_load_err(self.epub, cover_data, resource_data@) ==> (r matches Err(er)
                && load_err_ok(er, self.epub, cover_data, resource_data@)),
            !has_load_err(self.epub, cover_data, resource_data@) && bodies_utf8_seq(
                contents_seq(self.epub),
                0,
            ) && docs_ok_seq(contents_seq(self.epub), 0, self.epub.stylesheet is Some) && !ok_seq(
                contents_seq(self.epub),
                0,
            ) ==> (r matches Err(er) && er matches Error::ContentFilename(f) && f@ == first_bad_seq(
                contents_seq(self.epub),
                0,
            )),
            r matches Err(er) ==> (has_load_err(self.epub, cover_data, resource_data@)
                && load_err_ok(er, self.epub, cover_data, resource_data@)) || (!has_load_err(
                self.epub,
                cover_data,
                resource_data@,
            ) && (er matches Error::Utf8 || er matches Error::XmlParser(..) || er matches Error::Io(
                ..,
            ) || (er matches Error::ContentFilename(f) && f@ == first_bad_seq(
                contents_seq(self.epub),
                0,
            )))),
    {
        let ghost comp = self.compression;
        let ghost rd_full = resource_data@;
        let stored_all = match self.compression {
            ZipCompression::Stored => true,
            ZipCompression::Deflated => false,
        };
        let mut entries: Vec<ArchiveEntry> = Vec::new();

        let mimetype_file = crate::file_content::mimetype();
        entries.push(
            ArchiveEntry {
                path: mimetype_file.filepath.to_owned(),
                bytes: vstd::slice::slice_to_vec(mimetype_file.bytes),
                stored: true,
            },
        );
        let container_file = crate::file_content::container();
        entries.push(
            ArchiveEntry {
                path: container_file.filepath.to_owned(),
                bytes: vstd::slice::slice_to_vec(container_file.bytes),
                stored: stored_all,
            },
        );
        let display_file = crate::file_content::display_options();
        entries.push(
            ArchiveEntry {
                path: display_file.filepath.to_owned(),
                bytes: vstd::slice::slice_to_vec(display_file.bytes),
                stored: stored_all,
            },
        );
        proof {
            assert(entry_views(entries@) =~= fixed_entries(comp));
        }

        match &self.epub.stylesheet {
            Some(stylesheet) => {
                let body = stylesheet.clone();
                proof {
                    assert(body@ =~= stylesheet@);
                }
                entries.push(
                    ArchiveEntry {
                        path: String::from_str("OEBPS/style.css"),
                        bytes: body,
                        stored: stored_all,
                    },
                );
            },
            None => {
            },
        }
        let ghost pre_style = fixed_entries(comp) + style_entries(self.epub, comp);
        proof {
            assert(entry_views(entries@) =~= pre_style);
        }

        match &self.epub.cover_image {
            Some(cover) => {
                let filename = match cover.filename() {
                    Ok(f) => f,
                    Err(e) => {
                        return Err(e);
                    },
                };
                let bytes = match cover_data {
                    Some(Ok(b)) => b,
                    Some(Err(e)) => {
                        return Err(e);
                    },
                    None => {
                        proof {
                            assert(false);
                        }
                        return Err(Error::Utf8);
                    },
                };
                let mut path = String::from_str("OEBPS/");
                path.append(filename.as_str());
                entries.push(ArchiveEntry { path, bytes, stored: stored_all });
            },
            None => {
            },
        }
        let ghost pre_cover = pre_style + cover_entries(self.epub, cover_view(cover_data), comp);
        proof {
            assert(entry_views(entries@) =~= pre_cover);
        }

        let ghost rs = resources_seq(self.epub);
        let ghost datas = load_views(rd_full);
        match &self.epub.resources {
            Some(resources) => {
                match push_resource_entries(
                    &mut entries,
                    resources,
                    resource_data,
                    self.compression,
                ) {
                    Ok(_) => {
                    },
                    Err(e) => {
                        return Err(e);
                    },
                }
            },
            None => {
                proof {
                    assert(res_entries(rs, datas, 0, comp) =~= Seq::<
                        (Seq<char>, Seq<u8>, bool),
                    >::empty());
                    assert(!res_has_err(rs, rd_full, 0));
                }
            },
        }
        let ghost pre_res = pre_cover + res_entries(rs, datas, 0, comp);
        proof {
            assert(entry_views(entries@) =~= pre_res);
            assert(!has_load_err(self.epub, cover_data, rd_full));
        }

        let ghost cs = contents_seq(self.epub);
        let ghost style = self.epub.stylesheet is Some;
        let add_stylesheet = match &self.epub.stylesheet {
            Some(_) => true,
            None => false,
        };
        match &self.epub.contents {
            Some(contents) => {
                match push_content_entries(&mut entries, contents, add_stylesheet, self.compression) {
                    Ok(_) => {
                    },
                    Err(e) => {
                        return Err(e);
                    },
                }
            },
            None => {
                proof {
                    assert(files_seq(cs, 0, 0, style) =~= Seq::<(Seq<char>, Seq<char>)>::empty());
                    assert(text_entries(files_seq(cs, 0, 0, style), comp) =~= Seq::<
                        (Seq<char>, Seq<u8>, bool),
                    >::empty());
                    assert(bodies_utf8_seq(cs, 0));
                    assert(docs_ok_seq(cs, 0, style));
                }
            },
        }
        let ghost pre_text = pre_res + text_entries(files_seq(cs, 0, 0, style), comp);
        proof {
            assert(entry_views(entries@) =~= pre_text);
            assert(bodies_utf8_seq(cs, 0));
            assert(docs_ok_seq(cs, 0, style));
        }

        let opf_file = match crate::opf::content_opf(&self.epub) {
            Ok(fc) => fc,
            Err(e) => {
                return Err(e);
            },
        };
        let opf_text = match crate::xml::format(opf_file.bytes.as_str()) {
            Ok(t) => t,
            Err(e) => {
                return Err(e);
            },
        };
        entries.push(
            ArchiveEntry {
                path: opf_file.filepath,
                bytes: opf_text.as_str().as_bytes_vec(),
                stored: stored_all,
            },
        );

        let ncx_file = match crate::ncx::toc_ncx(&self.epub) {
            Ok(fc) => fc,
            Err(e) => {
                return Err(e);
            },
        };
        let ncx_text = match crate::xml::format(ncx_file.bytes.as_str()) {
            Ok(t) => t,
            Err(e) => {
                return Err(e);
            },
        };
        entries.push(
            ArchiveEntry {
                path: ncx_file.filepath,
                bytes: ncx_text.as_str().as_bytes_vec(),
                stored: stored_all,
            },
        );
        proof {
            assert(entry_views(entries@) =~= plan_views(
                self.epub,
                cover_view(cover_data),
                load_views(rd_full),
                comp,
            ));
            assert(pretty_ok(opf_xml(self.epub)));
            assert(pretty_ok(ncx_xml(self.epub)));
            assert(plan_ok(self.epub, cover_data, rd_full));
        }
        Ok(entries)
    }

    /// Assembles the whole archive in memory: the planned entries, in
    /// their fixed order, encoded as one ZIP archive. Nothing is handed
    /// back unless every load, generation and encoding step succeeded.
    pub fn create(
        self,
        cover_data: Option<Result<Vec<u8>, Error>>,
        resource_data: Vec<Result<Vec<u8>, Error>>,
    ) -> (r: Result<Vec<u8>, Error>)
        requires
            cover_data is Some <==> self.epub.cover_image is Some,
            resource_data@.len() == resources_seq(self.epub).len(),
            count_seq(contents_seq(self.epub), 0) <= usize::MAX,
            nav_count_seq(contents_seq(self.epub), 0) <= usize::MAX,
            doc_level(self.epub) <= usize::MAX,
        ensures
            r is Ok <==> plan_ok(self.epub, cover_data, resource_data@) && zip_seq_ok(
                plan_views(
                    self.epub,
                    cover_view(cover_data),
                    load_views(resource_data@),
                    self.compression,
                ),
            ),
            r matches Ok(b) ==> b@ == zip_bytes(
                plan_views(
                    self.epub,
                    cover_view(cover_data),
                    load_views(resource_data@),
                    self.compression,
                ),
            ),
            has_load_err(self.epub, cover_data, resource_data@) ==> (r matches Err(er)
                && load_err_ok(er, self.epub, cover_data, resource_data@)),
            !has_load_err(self.epub, cover_data, resource_data@) && bodies_utf8_seq(
                contents_seq(self.epub),
                0,
            ) && docs_ok_seq(contents_seq(self.epub), 0, self.epub.stylesheet is Some) && !ok_seq(
                contents_seq(self.epub),
                0,
            ) ==> (r matches Err(er) && er matches Error::ContentFilename(f) && f@ == first_bad_seq(
                contents_seq(self.epub),
                0,
            )),
            r matches Err(er) ==> (has_load_err(self.epub, cover_data, resource_data@)
                && load_err_ok(er, self.epub, cover_data, resource_data@)) || (!has_load_err(
                self.epub,
                cover_data,
                resource_data@,
            ) && (er matches Error::Utf8 || er matches Error::XmlParser(..) || er matches Error::Io(
                ..,
            ) || er matches Error::Zip(..) || (er matches Error::ContentFilename(f) && f@
                == first_bad_seq(contents_seq(self.epub), 0)))),
    {
        let entries = match self.plan(cover_data, resource_data) {
            Ok(v) => v,
            Err(e) => {
                return Err(e);
            },
        };
        zip_entries(&entries)
    }
}

} // verus!
