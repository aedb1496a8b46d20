//! The OPF package document: metadata, manifest, spine and guide, each
//! generated by an independent pre-order walk of the content forest that
//! re-derives the same filename numbering.

use vstd::prelude::*;

verus! {

use vstd::string::{StringExecFns, StrSliceExecFns};
use crate::content::{
    Content,
    assigned_names_node,
    assigned_names_seq,
    count_node,
    count_seq,
    node_name,
    role,
    title_view,
};
use crate::epub_builder::{Epub, contents_seq, resources_seq, cover_meta_xml};
use crate::file_content::{FileContent, ContentBuilder};
use crate::metadata::{
    title_meta_xml,
    language_meta_xml,
    identifier_meta_xml,
    creator_meta_xml,
    contributor_meta_xml,
    publisher_meta_xml,
    date_meta_xml,
    subject_meta_xml,
    description_meta_xml,
};
use crate::resource::{Resource, res_filename, res_manifest_xml};

/// Whether a filename ends in the content-document extension `.xhtml`.
pub open spec fn ends_xhtml(s: Seq<char>) -> bool {
    s.len() >= 6 && s[s.len() - 6] == '.' && s[s.len() - 5] == 'x' && s[s.len() - 4] == 'h'
        && s[s.len() - 3] == 't' && s[s.len() - 2] == 'm' && s[s.len() - 1] == 'l'
}

/// Whether a content node's own filename passes validation: an explicit
/// override must end in `.xhtml`; a node without one always passes.
pub open spec fn name_ok(c: Content) -> bool {
    match c.filename {
        Some(f) => ends_xhtml(f@),
        None => true,
    }
}

/// Whether every filename in the subtree rooted at `c` passes validation.
pub open spec fn ok_node(c: Content) -> bool
    decreases c, 0int,
{
    name_ok(c) && match c.subcontents {
        Some(v) => ok_seq(v@, 0),
        None => true,
    }
}

/// Whether every filename in the subtrees of `cs[i..]` passes validation.
pub open spec fn ok_seq(cs: Seq<Content>, i: int) -> bool
    decreases cs, cs.len() - i + 1,
{
    if 0 <= i < cs.len() {
        ok_node(cs[i]) && ok_seq(cs, i + 1)
    } else {
        true
    }
}

/// The first failing override in pre-order within the subtree rooted at
/// `c`; meaningful only when the subtree fails validation.
pub open spec fn first_bad_node(c: Content) -> Seq<char>
    decreases c, 0int,
{
    if !name_ok(c) {
        match c.filename {
            Some(f) => f@,
            None => Seq::empty(),
        }
    } else {
        match c.subcontents {
            Some(v) => first_bad_seq(v@, 0),
            None => Seq::empty(),
        }
    }
}

/// The first failing override in pre-order within the subtrees of
/// `cs[i..]`.
pub open spec fn first_bad_seq(cs: Seq<Content>, i: int) -> Seq<char>
    decreases cs, cs.len() - i + 1,
{
    if 0 <= i < cs.len() {
        if !ok_node(cs[i]) {
            first_bad_node(cs[i])
        } else {
            first_bad_seq(cs, i + 1)
        }
    } else {
        Seq::empty()
    }
}

/// Which repeated OPF section a content walk is emitting.
#[derive(Debug, Clone, Copy, PartialEq, Eq, Structural)]
pub enum ChainMode {
    /// Manifest `<item>` elements.
    Manifest,
    /// Spine `<itemref>` elements.
    Spine,
}

/// The element a content node with filename `name` contributes to the
/// manifest or spine.
pub open spec fn emit_xml(mode: ChainMode, name: Seq<char>) -> Seq<char> {
    match mode {
        ChainMode::Manifest => "<item id=\""@ + name + "\" href=\""@ + name
            + "\" media-type=\"application/xhtml+xml\"/>"@,
        ChainMode::Spine => "<itemref idref=\""@ + name + "\"/>"@,
    }
}

/// The `<reference>` element a content node contributes to the guide.
pub open spec fn guide_ref_xml(c: Content, n: nat) -> Seq<char> {
    "<reference type=\""@ + role(c.reference_type) + "\" title=\""@ + title_view(c.reference_type)
        + "\" href=\""@ + node_name(c, n) + "\"/>"@
}

/// The manifest or spine elements of the subtree rooted at `c`, whose
/// pre-order numbering starts at slot `n + 1`.
pub open spec fn chain_node(c: Content, n: nat, mode: ChainMode) -> Seq<char>
    decreases c, 0int,
{
    emit_xml(mode, node_name(c, n + 1)) + match c.subcontents {
        Some(v) => chain_seq(v@, 0, n + 1, mode),
        None => Seq::empty(),
    }
}

/// The manifest or spine elements of the subtrees of `cs[i..]`, numbered
/// consecutively from slot `n + 1`.
pub open spec fn chain_seq(cs: Seq<Content>, i: int, n: nat, mode: ChainMode) -> Seq<char>
    decreases cs, cs.len() - i + 1,
{
    if 0 <= i < cs.len() {
        chain_node(cs[i], n, mode) + chain_seq(cs, i + 1, n + count_node(cs[i]), mode)
    } else {
        Seq::empty()
    }
}

/// The guide elements of the subtree rooted at `c`. A root (`top`) emits
/// itself and its direct children; deeper descendants are not represented,
/// though the numbering still advances past them.
pub open spec fn guide_node(c: Content, n: nat, top: bool) -> Seq<char>
    decreases c, 0int,
{
    guide_ref_xml(c, n + 1) + if top {
        match c.subcontents {
            Some(v) => guide_seq(v@, 0, n + 1, false),
            None => Seq::empty(),
        }
    } else {
        Seq::empty()
    }
}

/// The guide elements of the subtrees of `cs[i..]`.
pub open spec fn guide_seq(cs: Seq<Content>, i: int, n: nat, top: bool) -> Seq<char>
    decreases cs, cs.len() - i + 1,
{
    if 0 <= i < cs.len() {
        guide_node(cs[i], n, top) + guide_seq(cs, i + 1, n + count_node(cs[i]), top)
    } else {
        Seq::empty()
    }
}

/// The manifest or spine elements over a given sequence of filenames,
/// one element per name from `names[k]` on, in order.
pub open spec fn items_over(names: Seq<Seq<char>>, k: int, mode: ChainMode) -> Seq<char>
    decreases names.len() - k,
{
    if 0 <= k < names.len() {
        emit_xml(mode, names[k]) + items_over(names, k + 1, mode)
    } else {
        Seq::empty()
    }
}

proof fn lemma_items_over_shift(a: Seq<Seq<char>>, b: Seq<Seq<char>>, j: int, mode: ChainMode)
    requires
        0 <= j <= b.len(),
    ensures
        items_over(a + b, a.len() + j, mode) == items_over(b, j, mode),
    decreases b.len() - j,
{
    if j < b.len() {
        assert((a + b)[a.len() + j] == b[j]);
        lemma_items_over_shift(a, b, j + 1, mode);
    }
}

proof fn lemma_items_over_concat(a: Seq<Seq<char>>, b: Seq<Seq<char>>, k: int, mode: ChainMode)
    requires
        0 <= k <= a.len(),
    ensures
        items_over(a + b, k, mode) == items_over(a, k, mode) + items_over(b, 0, mode),
    decreases a.len() - k,
{
    if k < a.len() {
        assert((a + b)[k] == a[k]);
        lemma_items_over_concat(a, b, k + 1, mode);
        assert(items_over(a + b, k, mode) =~= items_over(a, k, mode) + items_over(b, 0, mode));
    } else {
        lemma_items_over_shift(a, b, 0, mode);
        assert(items_over(a, k, mode) + items_over(b, 0, mode) =~= items_over(b, 0, mode));
    }
}

proof fn lemma_chain_matches_numbering_node(c: Content, n: nat, mode: ChainMode)
    ensures
        chain_node(c, n, mode) == items_over(assigned_names_node(c, n), 0, mode),
    decreases c, 0int,
{
    let own = seq![node_name(c, n + 1)];
    match c.subcontents {
        Some(v) => {
            lemma_chains_match_numbering(v@, 0, n + 1, mode);
            lemma_items_over_concat(own, assigned_names_seq(v@, 0, n + 1), 0, mode);
            assert(items_over(own, 1, mode) =~= Seq::<char>::empty());
            assert(items_over(own, 0, mode) =~= emit_xml(mode, node_name(c, n + 1)));
        },
        None => {
            assert(items_over(own, 1, mode) =~= Seq::<char>::empty());
            assert(items_over(own, 0, mode) =~= emit_xml(mode, node_name(c, n + 1)));
            assert(assigned_names_node(c, n) =~= own);
            assert(chain_node(c, n, mode) =~= emit_xml(mode, node_name(c, n + 1)));
        },
    }
}

/// Law: the manifest and spine walks emit exactly one element per
/// numbering slot, each carrying the very filename the resolver assigns
/// to that slot. Together with the serialisation law this is the
/// agreement between the package document, the reading order, and the
/// produced content files that the whole format depends on.
pub proof fn lemma_chains_match_numbering(cs: Seq<Content>, i: int, n: nat, mode: ChainMode)
    ensures
        chain_seq(cs, i, n, mode) == items_over(assigned_names_seq(cs, i, n), 0, mode),
    decreases cs, cs.len() - i + 1,
{
    if 0 <= i < cs.len() {
        lemma_chain_matches_numbering_node(cs[i], n, mode);
        lemma_chains_match_numbering(cs, i + 1, n + count_node(cs[i]), mode);
        lemma_items_over_concat(
            assigned_names_node(cs[i], n),
            assigned_names_seq(cs, i + 1, n + count_node(cs[i])),
            0,
            mode,
        );
    } else {
        assert(chain_seq(cs, i, n, mode) =~= Seq::<char>::empty());
        assert(items_over(assigned_names_seq(cs, i, n), 0, mode) =~= Seq::<char>::empty());
    }
}

/// The manifest `<item>` elements of the resources `rs[i..]`; a resource
/// without an extractable filename contributes nothing.
pub open spec fn res_items_from(rs: Seq<Resource>, i: int) -> Seq<char>
    decreases rs.len() - i,
{
    if 0 <= i < rs.len() {
        (match res_filename(rs[i]) {
            Some(f) => res_manifest_xml(rs[i], f),
            None => Seq::empty(),
        }) + res_items_from(rs, i + 1)
    } else {
        Seq::empty()
    }
}

/// The fixed opening of the package document, up to the metadata block.
pub open spec fn opf_header() -> Seq<char> {
    "<?xml version=\"1.0\" encoding=\"utf-8\"?><package version=\"2.0\" unique-identifier=\"BookId\" xmlns=\"http://www.idpf.org/2007/opf\">\n        <metadata xmlns:dc=\"http://purl.org/dc/elements/1.1/\" xmlns:opf=\"http://www.idpf.org/2007/opf\">"@
}

/// The cover `<meta>` element of the package metadata, or nothing when no
/// cover with an extractable filename is set.
pub open spec fn cover_meta_or_empty(e: Epub) -> Seq<char> {
    match e.cover_image {
        Some(c) => match res_filename(c) {
            Some(f) => cover_meta_xml(f),
            None => Seq::empty(),
        },
        None => Seq::empty(),
    }
}

/// The cover image's manifest `<item>` element, or nothing.
pub open spec fn cover_item_or_empty(e: Epub) -> Seq<char> {
    match e.cover_image {
        Some(c) => match res_filename(c) {
            Some(f) => res_manifest_xml(c, f),
            None => Seq::empty(),
        },
        None => Seq::empty(),
    }
}

/// The complete package document of `e`: metadata block, manifest, spine
/// and guide, each over the same numbering of the content forest.
pub open spec fn opf_xml(e: Epub) -> Seq<char> {
    opf_header() + title_meta_xml(e.metadata) + language_meta_xml(e.metadata.language)
        + identifier_meta_xml(e.metadata.identifier) + creator_meta_xml(e.metadata)
        + contributor_meta_xml(e.metadata) + publisher_meta_xml(e.metadata) + date_meta_xml(
        e.metadata,
    ) + subject_meta_xml(e.metadata) + description_meta_xml(e.metadata) + cover_meta_or_empty(e)
        + "</metadata><manifest><item id=\"ncx\" href=\"toc.ncx\" media-type=\"application/x-dtbncx+xml\" />"@
        + (if e.stylesheet is Some {
        "<item id=\"style.css\" href=\"style.css\" media-type=\"text/css\"/>"@
    } else {
        Seq::empty()
    }) + cover_item_or_empty(e) + res_items_from(resources_seq(e), 0) + chain_seq(
        contents_seq(e),
        0,
        0,
        ChainMode::Manifest,
    ) + "</manifest><spine toc=\"ncx\">"@ + chain_seq(contents_seq(e), 0, 0, ChainMode::Spine)
        + "</spine><guide>"@ + guide_seq(contents_seq(e), 0, 0, true) + "</guide></package>"@
}

/// Checks that a filename ends in `.xhtml`.
pub fn ends_with_xhtml(s: &str) -> (r: bool)
    ensures
        r == ends_xhtml(s@),
{
    let len = s.unicode_len();
    if len < 6 {
        return false;
    }
    s.get_char(len - 6) == '.' && s.get_char(len - 5) == 'x' && s.get_char(len - 4) == 'h'
        && s.get_char(len - 3) == 't' && s.get_char(len - 2) == 'm' && s.get_char(len - 1) == 'l'
}

/// A generated sequential filename always carries the `.xhtml` extension.
proof fn lemma_default_name_ends_xhtml(c: Content, n: nat)
    requires
        c.filename is None,
    ensures
        ends_xhtml(node_name(c, n)),
{
    reveal_strlit(".xhtml");
    let s = node_name(c, n);
    let tail = ".xhtml"@;
    assert(tail.len() == 6);
    assert(s == "c"@ + crate::numbering::dec_pad2(n) + tail);
    assert(s.len() >= 6);
    assert(s[s.len() - 6] == tail[0]);
    assert(s[s.len() - 5] == tail[1]);
    assert(s[s.len() - 4] == tail[2]);
    assert(s[s.len() - 3] == tail[3]);
    assert(s[s.len() - 2] == tail[4]);
    assert(s[s.len() - 1] == tail[5]);
}

/// A validated prefix shifts where the first failure can lie.
proof fn lemma_ok_seq_skip(cs: Seq<Content>, i: int)
    requires
        0 <= i <= cs.len(),
        forall|k: int| 0 <= k < i ==> ok_node(#[trigger] cs[k]),
    ensures
        ok_seq(cs, 0) <==> ok_seq(cs, i),
        first_bad_seq(cs, 0) == first_bad_seq(cs, i),
    decreases i,
{
    if i > 0 {
        lemma_ok_seq_skip_from(cs, 0, i);
    }
}

proof fn lemma_ok_seq_skip_from(cs: Seq<Content>, j: int, i: int)
    requires
        0 <= j <= i <= cs.len(),
        forall|k: int| j <= k < i ==> ok_node(#[trigger] cs[k]),
    ensures
        ok_seq(cs, j) <==> ok_seq(cs, i),
        first_bad_seq(cs, j) == first_bad_seq(cs, i),
    decreases i - j,
{
    if j < i {
        lemma_ok_seq_skip_from(cs, j + 1, i);
    }
}

/// When every subtree of a sequence passes validation, the sequence does.
proof fn lemma_ok_seq_all(cs: Seq<Content>, i: int)
    requires
        0 <= i <= cs.len(),
        forall|k: int| 0 <= k < cs.len() ==> ok_node(#[trigger] cs[k]),
    ensures
        ok_seq(cs, i),
    decreases cs.len() - i,
{
    if i < cs.len() {
        lemma_ok_seq_all(cs, i + 1);
    }
}

/// Walks the content forest in pre-order, validating each filename and
/// appending one manifest or spine element per node. It succeeds exactly
/// when every explicit override in the forest ends in `.xhtml` (generated
/// sequential names always do), and otherwise aborts at the first failing
/// override, whose name the error carries.
#[verifier::rlimit(100)]
pub fn create_content_chain(
    file_number: &mut usize,
    cb: &mut ContentBuilder,
    contents: &Vec<Content>,
    mode: ChainMode,
) -> (r: Result<(), crate::Error>)
    requires
        *old(file_number) + count_seq(contents@, 0) <= usize::MAX,
    ensures
        r is Ok <==> ok_seq(contents@, 0),
        r is Ok ==> *final(file_number) == *old(file_number) + count_seq(contents@, 0),
        r is Ok ==> final(cb).0@ == old(cb).0@ + chain_seq(
            contents@,
            0,
            *old(file_number) as nat,
            mode,
        ),
        r matches Err(e) ==> e matches crate::Error::ContentFilename(f) && f@ == first_bad_seq(
            contents@,
            0,
        ),
    decreases contents@,
{
    let ghost cs = contents@;
    let ghost n0 = *file_number as nat;
    let ghost cb0 = cb.0@;
    let mut i: usize = 0;
    while i < contents.len()
        invariant
            cs == contents@,
            0 <= i <= cs.len(),
            forall|k: int| 0 <= k < i ==> ok_node(#[trigger] cs[k]),
            *file_number + count_seq(cs, i as int) <= usize::MAX,
            *file_number as nat == n0 + count_seq(cs, 0) - count_seq(cs, i as int),
            cb0 + chain_seq(cs, 0, n0, mode) == cb.0@ + chain_seq(
                cs,
                i as int,
                *file_number as nat,
                mode,
            ),
        decreases cs.len() - i,
    {
        let ghost n_here = *file_number as nat;
        assert(count_seq(cs, i as int) == count_node(cs[i as int]) + count_seq(cs, i + 1));
        assert(count_node(cs[i as int]) >= 1);
        let con = &contents[i];
        *file_number = *file_number + 1;
        let filename = con.filename(*file_number);
        if !ends_with_xhtml(filename.as_str()) {
            proof {
                if con.filename is None {
                    lemma_default_name_ends_xhtml(*con, n_here + 1);
                    assert(false);
                }
                assert(!name_ok(cs[i as int]));
                assert(!ok_node(cs[i as int]));
                lemma_ok_seq_skip(cs, i as int);
                assert(first_bad_seq(cs, i as int) == first_bad_node(cs[i as int]));
                assert(first_bad_node(cs[i as int]) == filename@);
            }
            return Err(crate::Error::ContentFilename(filename));
        }
        assert(name_ok(cs[i as int]));
        let ghost cb_before = cb.0@;
        match mode {
            ChainMode::Manifest => {
                cb.add("<item id=\"");
                cb.add(filename.as_str());
                cb.add("\" href=\"");
                cb.add(filename.as_str());
                cb.add("\" media-type=\"application/xhtml+xml\"/>");
            },
            ChainMode::Spine => {
                cb.add("<itemref idref=\"");
                cb.add(filename.as_str());
                cb.add("\"/>");
            },
        }
        proof {
            assert(cb.0@ =~= cb_before + emit_xml(mode, node_name(cs[i as int], n_here + 1)));
        }
        match &con.subcontents {
            Some(subs) => {
                let res = create_content_chain(file_number, cb, subs, mode);
                match res {
                    Ok(_) => {
                        proof {
                            assert(ok_node(cs[i as int]));
                        }
                    },
                    Err(e) => {
                        proof {
                            assert(!ok_seq(subs@, 0));
                            assert(!ok_node(cs[i as int]));
                            lemma_ok_seq_skip(cs, i as int);
                            assert(first_bad_seq(cs, i as int) == first_bad_node(cs[i as int]));
                            assert(first_bad_node(cs[i as int]) == first_bad_seq(subs@, 0));
                        }
                        return Err(e);
                    },
                }
            },
            None => {
                proof {
                    assert(ok_node(cs[i as int]));
                }
            },
        }
        proof {
            assert(chain_node(cs[i as int], n_here, mode) =~= emit_xml(
                mode,
                node_name(cs[i as int], n_here + 1),
            ) + match cs[i as int].subcontents {
                Some(v) => chain_seq(v@, 0, n_here + 1, mode),
                None => Seq::<char>::empty(),
            });
            assert(chain_seq(cs, i as int, n_here, mode) == chain_node(cs[i as int], n_here, mode)
                + chain_seq(cs, i + 1, n_here + count_node(cs[i as int]), mode));
            assert(cb0 + chain_seq(cs, 0, n0, mode) =~= cb.0@ + chain_seq(
                cs,
                i + 1,
                *file_number as nat,
                mode,
            ));
        }
        i = i + 1;
    }
    proof {
        lemma_ok_seq_all(cs, 0);
        assert(chain_seq(cs, cs.len() as int, *file_number as nat, mode)
            =~= Seq::<char>::empty());
        assert(cb0 + chain_seq(cs, 0, n0, mode) =~= cb.0@);
    }
    Ok(())
}

/// Walks the roots and their direct children, appending one guide
/// `<reference>` element for each while advancing the numbering past the
/// whole subtree of every node.
#[verifier::rlimit(100)]
fn create_guide_chain(
    file_number: &mut usize,
    cb: &mut ContentBuilder,
    contents: &Vec<Content>,
    top: bool,
) -> (r: Result<(), crate::Error>)
    requires
        *old(file_number) + count_seq(contents@, 0) <= usize::MAX,
    ensures
        ok_seq(contents@, 0) ==> r is Ok,
        r is Ok ==> *final(file_number) == *old(file_number) + count_seq(contents@, 0),
        r is Ok ==> final(cb).0@ == old(cb).0@ + guide_seq(
            contents@,
            0,
            *old(file_number) as nat,
            top,
        ),
        r matches Err(e) ==> e matches crate::Error::ContentFilename(..),
    decreases contents@,
{
    let ghost cs = contents@;
    let ghost n0 = *file_number as nat;
    let ghost cb0 = cb.0@;
    let mut i: usize = 0;
    while i < contents.len()
        invariant
            cs == contents@,
            0 <= i <= cs.len(),
            ok_seq(cs, 0) ==> ok_seq(cs, i as int),
            *file_number + count_seq(cs, i as int) <= usize::MAX,
            *file_number as nat == n0 + count_seq(cs, 0) - count_seq(cs, i as int),
            cb0 + guide_seq(cs, 0, n0, top) == cb.0@ + guide_seq(
                cs,
                i as int,
                *file_number as nat,
                top,
            ),
        decreases cs.len() - i,
    {
        let ghost n_here = *file_number as nat;
        assert(count_seq(cs, i as int) == count_node(cs[i as int]) + count_seq(cs, i + 1));
        assert(count_node(cs[i as int]) >= 1);
        let con = &contents[i];
        *file_number = *file_number + 1;
        let filename = con.filename(*file_number);
        if !ends_with_xhtml(filename.as_str()) {
            proof {
                if con.filename is None {
                    lemma_default_name_ends_xhtml(*con, n_here + 1);
                    assert(false);
                }
                if ok_seq(cs, 0) {
                    assert(ok_seq(cs, i as int));
                    assert(ok_node(cs[i as int]));
                    assert(false);
                }
            }
            return Err(crate::Error::ContentFilename(filename));
        }
        let ghost cb_before = cb.0@;
        let (ref_type, title) = con.reference_type.type_and_title();
        cb.add("<reference type=\"");
        cb.add(ref_type);
        cb.add("\" title=\"");
        cb.add(title);
        cb.add("\" href=\"");
        cb.add(filename.as_str());
        cb.add("\"/>");
        proof {
            assert(cb.0@ =~= cb_before + guide_ref_xml(cs[i as int], n_here + 1));
        }
        if top {
            match &con.subcontents {
                Some(subs) => {
                    let res = create_guide_chain(file_number, cb, subs, false);
                    match res {
                        Ok(_) => {
                        },
                        Err(e) => {
                            proof {
                                if ok_seq(cs, 0) {
                                    assert(ok_seq(cs, i as int));
                                    assert(ok_node(cs[i as int]));
                                    assert(ok_seq(subs@, 0));
                                    assert(false);
                                }
                            }
                            return Err(e);
                        },
                    }
                },
                None => {
                },
            }
        } else {
            // A non-root node is listed without its descendants, but the
            // numbering still advances past its whole subtree.
            let skipped = con.count();
            *file_number = *file_number + (skipped - 1);
        }
        proof {
            assert(guide_node(cs[i as int], n_here, top) =~= guide_ref_xml(cs[i as int], n_here + 1)
                + if top {
                match cs[i as int].subcontents {
                    Some(v) => guide_seq(v@, 0, n_here + 1, false),
                    None => Seq::<char>::empty(),
                }
            } else {
                Seq::<char>::empty()
            });
            assert(guide_seq(cs, i as int, n_here, top) == guide_node(cs[i as int], n_here, top)
                + guide_seq(cs, i + 1, n_here + count_node(cs[i as int]), top));
            assert(cb0 + guide_seq(cs, 0, n0, top) =~= cb.0@ + guide_seq(
                cs,
                i + 1,
                *file_number as nat,
                top,
            ));
        }
        i = i + 1;
    }
    proof {
        assert(guide_seq(cs, cs.len() as int, *file_number as nat, top) =~= Seq::<char>::empty());
        assert(cb0 + guide_seq(cs, 0, n0, top) =~= cb.0@);
    }
    Ok(())
}

/// Generates the `content.opf` package document. It succeeds exactly when
/// every explicit filename override in the forest ends in `.xhtml`, and
/// otherwise fails with the first failing override in pre-order.
#[verifier::rlimit(100)]
pub fn content_opf(epub: &Epub) -> (r: Result<FileContent<String, String>, crate::Error>)
    requires
        count_seq(contents_seq(*epub), 0) <= usize::MAX,
    ensures
        r is Ok <==> ok_seq(contents_seq(*epub), 0),
        r matches Ok(fc) ==> fc.filepath@ == "OEBPS/content.opf"@ && fc.bytes@ == opf_xml(*epub),
        r matches Err(e) ==> e matches crate::Error::ContentFilename(f) && f@ == first_bad_seq(
            contents_seq(*epub),
            0,
        ),
{
    let metadata = &epub.metadata;
    let mut cb = ContentBuilder(
        String::from_str(
            "<?xml version=\"1.0\" encoding=\"utf-8\"?><package version=\"2.0\" unique-identifier=\"BookId\" xmlns=\"http://www.idpf.org/2007/opf\">\n        <metadata xmlns:dc=\"http://purl.org/dc/elements/1.1/\" xmlns:opf=\"http://www.idpf.org/2007/opf\">",
        ),
    );
    let title_xml = metadata.title_as_metadata_xml();
    cb.add(title_xml.as_str());
    let lang_xml = metadata.language.as_metadata_xml();
    cb.add(lang_xml.as_str());
    let id_xml = metadata.identifier.as_metadata_xml();
    cb.add(id_xml.as_str());
    let creator = metadata.creator_as_metadata_xml();
    cb.add_optional(creator.as_ref());
    let contributor = metadata.contributor_as_metadata_xml();
    cb.add_optional(contributor.as_ref());
    let publisher = metadata.publisher_as_metadata_xml();
    cb.add_optional(publisher.as_ref());
    let date = metadata.date_as_metadata_xml();
    cb.add_optional(date.as_ref());
    let subject = metadata.subject_as_metadata_xml();
    cb.add_optional(subject.as_ref());
    let description = metadata.description_as_metadata_xml();
    cb.add_optional(description.as_ref());
    let cover_meta = epub.cover_image_as_metadata_xml();
    cb.add_optional(cover_meta.as_ref());
    cb.add(
        "</metadata><manifest><item id=\"ncx\" href=\"toc.ncx\" media-type=\"application/x-dtbncx+xml\" />",
    );
    cb.add_if_some(
        "<item id=\"style.css\" href=\"style.css\" media-type=\"text/css\"/>",
        &epub.stylesheet,
    );
    let cover_item = epub.cover_image_as_manifest_xml();
    cb.add_optional(cover_item.as_ref());
    match &epub.resources {
        Some(resources) => {
            let ghost rs = resources@;
            let ghost cb_res0 = cb.0@;
            let mut k: usize = 0;
            while k < resources.len()
                invariant
                    rs == resources@,
                    0 <= k <= rs.len(),
                    cb_res0 + res_items_from(rs, 0) == cb.0@ + res_items_from(rs, k as int),
                decreases rs.len() - k,
            {
                let item = resources[k].as_manifest_xml();
                cb.add_optional(item.as_ref());
                proof {
                    assert(cb_res0 + res_items_from(rs, 0) =~= cb.0@ + res_items_from(rs, k + 1));
                }
                k = k + 1;
            }
            proof {
                assert(res_items_from(rs, rs.len() as int) =~= Seq::<char>::empty());
                assert(cb.0@ =~= cb_res0 + res_items_from(rs, 0));
            }
        },
        None => {
            proof {
                assert(res_items_from(resources_seq(*epub), 0) =~= Seq::<char>::empty());
            }
        },
    }
    let ghost cs = contents_seq(*epub);
    match &epub.contents {
        Some(contents) => {
            let mut manifest_number: usize = 0;
            match create_content_chain(&mut manifest_number, &mut cb, contents, ChainMode::Manifest) {
                Ok(_) => {
                },
                Err(e) => {
                    return Err(e);
                },
            }
            cb.add("</manifest><spine toc=\"ncx\">");
            let mut spine_number: usize = 0;
            match create_content_chain(&mut spine_number, &mut cb, contents, ChainMode::Spine) {
                Ok(_) => {
                },
                Err(e) => {
                    return Err(e);
                },
            }
            cb.add("</spine><guide>");
            let mut guide_number: usize = 0;
            match create_guide_chain(&mut guide_number, &mut cb, contents, true) {
                Ok(_) => {
                },
                Err(e) => {
                    assert(false);
                    return Err(e);
                },
            }
            cb.add("</guide></package>");
        },
        None => {
            cb.add("</manifest><spine toc=\"ncx\">");
            cb.add("</spine><guide>");
            cb.add("</guide></package>");
            proof {
                assert(chain_seq(cs, 0, 0, ChainMode::Manifest) =~= Seq::<char>::empty());
                assert(chain_seq(cs, 0, 0, ChainMode::Spine) =~= Seq::<char>::empty());
                assert(guide_seq(cs, 0, 0, true) =~= Seq::<char>::empty());
                assert(ok_seq(cs, 0));
            }
        },
    }
    let fc = FileContent::new(String::from_str("OEBPS/content.opf"), cb.build());
    proof {
        assert(fc.bytes@ =~= opf_xml(*epub));
    }
    Ok(fc)
}

} // verus!
