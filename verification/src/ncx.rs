//! The NCX navigation map: one navPoint per content unit, with the unit's
//! in-page references nested inside it, over a single play-order counter
//! shared by the whole traversal, a per-unit anchor-link counter, and a
//! dash-separated hierarchical path scheme for reference navPoint ids.
//!
//! A unit's own references come before its sub-units, and the `src` of a
//! content navPoint uses the same pre-order file numbering that the OPF
//! manifest and spine derive.

use vstd::prelude::*;

verus! {

use vstd::string::{StringExecFns, StrSliceExecFns};
use crate::content::{Content, count_node, count_seq, node_name, title_view};
use crate::content_reference::{ContentReference, ref_src};
use crate::epub_builder::{Epub, contents_seq, doc_level, level_toc_xml};
use crate::file_content::{FileContent, ContentBuilder};
use crate::metadata::identifier_toc_xml;
use crate::numbering::{dec_digits, last_index_of, parse_dec};

/// The number of navPoints nested under a reference node, the node itself
/// not counted.
pub open spec fn count_refs_node(r: ContentReference) -> nat
    decreases r, 0int,
{
    match r.subcontent_references {
        Some(v) => count_refs(v@, 0),
        None => 0,
    }
}

/// The number of navPoints contributed by the references `rs[i..]`,
/// nested ones included.
pub open spec fn count_refs(rs: Seq<ContentReference>, i: int) -> nat
    decreases rs, rs.len() - i + 1,
{
    if 0 <= i < rs.len() {
        1 + count_refs_node(rs[i]) + count_refs(rs, i + 1)
    } else {
        0
    }
}

/// The number of navPoints contributed by the subtree of one content
/// unit: the unit itself, its whole reference chain, and its sub-units.
pub open spec fn nav_count_node(c: Content) -> nat
    decreases c, 0int,
{
    1 + (match c.content_references {
        Some(v) => count_refs(v@, 0),
        None => 0,
    }) + (match c.subcontents {
        Some(v) => nav_count_seq(v@, 0),
        None => 0,
    })
}

/// The number of navPoints contributed by the subtrees of `cs[i..]`.
pub open spec fn nav_count_seq(cs: Seq<Content>, i: int) -> nat
    decreases cs, cs.len() - i + 1,
{
    if 0 <= i < cs.len() {
        nav_count_node(cs[i]) + nav_count_seq(cs, i + 1)
    } else {
        0
    }
}

/// The opening of a reference navPoint, up to its content source: the id
/// carries the owning file number and the hierarchical path, the play
/// order stands alone.
pub open spec fn ref_nav_head(
    file_num: nat,
    path: Seq<char>,
    play: nat,
    title: Seq<char>,
    src: Seq<char>,
) -> Seq<char> {
    "<navPoint id=\"navPoint-"@ + dec_digits(file_num) + path + "\" playOrder=\""@ + dec_digits(
        play,
    ) + "\">\n            <navLabel><text>"@ + title + "</text></navLabel>\n            <content src=\""@
        + src + "\"/>"@
}

/// The navPoint element of one reference entry, with nested reference
/// navPoints sitting inside it.
pub open spec fn ref_nav_xml(
    file_num: nat,
    path: Seq<char>,
    play: nat,
    title: Seq<char>,
    src: Seq<char>,
    inner: Seq<char>,
) -> Seq<char> {
    ref_nav_head(file_num, path, play, title, src) + inner + "</navPoint>"@
}

/// The navPoints of the references `rs[i..]` belonging to the file
/// numbered `file_num` and named `fname`: sibling paths extend `prefix`
/// with 1-based indices counted from `sib`, the play order ticks once per
/// entry from `play`, and anchors without an explicit id are numbered
/// from `link`.
pub open spec fn refs_nav(
    rs: Seq<ContentReference>,
    i: int,
    file_num: nat,
    fname: Seq<char>,
    prefix: Seq<char>,
    sib: nat,
    play: nat,
    link: nat,
) -> Seq<char>
    decreases rs, rs.len() - i + 1,
{
    if 0 <= i < rs.len() {
        let cur_path = prefix + "-"@ + dec_digits(sib + 1);
        let inner = match rs[i].subcontent_references {
            Some(v) => refs_nav(v@, 0, file_num, fname, cur_path, 0, play + 1, link + 1),
            None => Seq::empty(),
        };
        ref_nav_xml(
            file_num,
            cur_path,
            play + 1,
            rs[i].title@,
            ref_src(rs[i], fname, link + 1),
            inner,
        ) + refs_nav(
            rs,
            i + 1,
            file_num,
            fname,
            prefix,
            sib + 1,
            play + 1 + count_refs_node(rs[i]),
            link + 1 + count_refs_node(rs[i]),
        )
    } else {
        Seq::empty()
    }
}

/// The opening of a content navPoint, up to its content source; its id
/// and play order both carry the play-order value.
pub open spec fn content_nav_head(play: nat, title: Seq<char>, fname: Seq<char>) -> Seq<char> {
    "<navPoint id=\"navPoint-"@ + dec_digits(play) + "\" playOrder=\""@ + dec_digits(play)
        + "\">\n            <navLabel><text>"@ + title
        + "</text></navLabel>\n            <content src=\""@ + fname + "\"/>"@
}

/// The navPoint element of one content unit, with its reference chain and
/// its sub-units nested inside it.
pub open spec fn content_nav_xml(
    play: nat,
    title: Seq<char>,
    fname: Seq<char>,
    refs: Seq<char>,
    subs: Seq<char>,
) -> Seq<char> {
    content_nav_head(play, title, fname) + refs + subs + "</navPoint>"@
}

/// The navPoint block of the single content unit `c`: the unit ticks the
/// play order, takes the next file number, and nests its reference chain
/// (with a fresh anchor-link counter) and then its sub-units.
pub open spec fn content_nav_node(c: Content, play: nat, file: nat) -> Seq<char>
    decreases c, 0int,
{
    let fname = node_name(c, file + 1);
    let refs = match c.content_references {
        Some(v) => refs_nav(v@, 0, file + 1, fname, Seq::empty(), 0, play + 1, 0),
        None => Seq::empty(),
    };
    let refs_n: nat = match c.content_references {
        Some(v) => count_refs(v@, 0),
        None => 0,
    };
    let subs = match c.subcontents {
        Some(v) => contents_nav(v@, 0, play + 1 + refs_n, file + 1),
        None => Seq::empty(),
    };
    content_nav_xml(play + 1, title_view(c.reference_type), fname, refs, subs)
}

/// The navPoints of the subtrees of `cs[i..]`, over the shared play-order
/// counter and the pre-order file numbering.
pub open spec fn contents_nav(cs: Seq<Content>, i: int, play: nat, file: nat) -> Seq<char>
    decreases cs, cs.len() - i + 1,
{
    if 0 <= i < cs.len() {
        content_nav_node(cs[i], play, file) + contents_nav(
            cs,
            i + 1,
            play + nav_count_node(cs[i]),
            file + count_node(cs[i]),
        )
    } else {
        Seq::empty()
    }
}

/// The prefix part of a hierarchical path: what precedes its last dash,
/// or nothing when it has none.
pub open spec fn toc_prefix(s: Seq<char>) -> Seq<char> {
    match last_index_of(s, '-') {
        Some(i) => s.subrange(0, i),
        None => Seq::empty(),
    }
}

/// The sibling index a hierarchical path continues from: the decimal
/// value of what follows its last dash, or zero when it has no dash or
/// that segment is not a number.
pub open spec fn toc_start(s: Seq<char>) -> nat {
    match last_index_of(s, '-') {
        Some(i) => match parse_dec(s.subrange(i + 1, s.len() as int)) {
            Some(v) => v as nat,
            None => 0,
        },
        None => 0,
    }
}

/// The fixed opening of the navigation document, up to the head block.
pub open spec fn ncx_header() -> Seq<char> {
    "<?xml version=\"1.0\" encoding=\"UTF-8\"?><!DOCTYPE ncx PUBLIC \"-//NISO//DTD ncx 2005-1//EN\" \"http://www.daisy.org/z3986/2005/ncx-2005-1.dtd\">\n        <ncx xmlns=\"http://www.daisy.org/z3986/2005/ncx/\" version=\"2005-1\"><head>"@
}

/// The fixed page-count metadata and the start of the document title.
pub open spec fn ncx_counts() -> Seq<char> {
    "<meta name=\"dtb:totalPageCount\" content=\"0\"/><meta name=\"dtb:maxPageNumber\" content=\"0\"/></head>\n                        <docTitle><text>"@
}

/// The complete navigation document of `e`.
pub open spec fn ncx_xml(e: Epub) -> Seq<char> {
    ncx_header() + identifier_toc_xml(e.metadata.identifier) + level_toc_xml(e) + ncx_counts()
        + e.metadata.title@ + "</text></docTitle><navMap>"@ + contents_nav(contents_seq(e), 0, 0, 0)
        + "</navMap></ncx>"@
}

/// Every reference entry contributes at least one navPoint.
proof fn lemma_count_refs_ge_len(rs: Seq<ContentReference>, i: int)
    requires
        0 <= i <= rs.len(),
    ensures
        count_refs(rs, i) >= rs.len() - i,
    decreases rs.len() - i,
{
    if i < rs.len() {
        lemma_count_refs_ge_len(rs, i + 1);
    }
}

/// Appending a dash to a path makes it the prefix its children extend,
/// with sibling numbering starting over.
proof fn lemma_toc_dash_suffix(s: Seq<char>)
    ensures
        toc_prefix(s + "-"@) == s,
        toc_start(s + "-"@) == 0,
{
    reveal_strlit("-");
    let t = s + "-"@;
    assert(t.len() == s.len() + 1);
    assert(t.last() == '-');
    assert(last_index_of(t, '-') == Some(s.len() as int));
    assert(t.subrange(0, s.len() as int) =~= s);
    assert(t.subrange(s.len() as int + 1, t.len() as int) =~= Seq::<char>::empty());
}

/// Appends the opening of a reference navPoint.
fn append_ref_nav_head(
    result: &mut String,
    file_num: u64,
    path: &str,
    play: u64,
    title: &str,
    src: &str,
)
    ensures
        final(result)@ == old(result)@ + ref_nav_head(
            file_num as nat,
            path@,
            play as nat,
            title@,
            src@,
        ),
{
    result.append("<navPoint id=\"navPoint-");
    let file_num_str = crate::numbering::dec_string(file_num);
    result.append(file_num_str.as_str());
    result.append(path);
    result.append("\" playOrder=\"");
    let play_str = crate::numbering::dec_string(play);
    result.append(play_str.as_str());
    result.append("\">\n            <navLabel><text>");
    result.append(title);
    result.append("</text></navLabel>\n            <content src=\"");
    result.append(src);
    result.append("\"/>");
    proof {
        assert(result@ =~= old(result)@ + ref_nav_head(
            file_num as nat,
            path@,
            play as nat,
            title@,
            src@,
        ));
    }
}

/// Appends the opening of a content navPoint.
fn append_content_nav_head(result: &mut String, play: u64, title: &str, fname: &str)
    ensures
        final(result)@ == old(result)@ + content_nav_head(play as nat, title@, fname@),
{
    result.append("<navPoint id=\"navPoint-");
    let play_str = crate::numbering::dec_string(play);
    result.append(play_str.as_str());
    result.append("\" playOrder=\"");
    result.append(play_str.as_str());
    result.append("\">\n            <navLabel><text>");
    result.append(title);
    result.append("</text></navLabel>\n            <content src=\"");
    result.append(fname);
    result.append("\"/>");
    proof {
        assert(result@ =~= old(result)@ + content_nav_head(play as nat, title@, fname@));
    }
}

/// Generates the navPoints of the references `content_references` under
/// the content file given by `current_xhtml` (its number and filename).
/// `toc_index` is the parent hierarchical path: new entries extend what
/// precedes its last dash, counting on from the number that follows it.
/// Play order and anchor-link numbering tick once per entry.
#[verifier::rlimit(100)]
pub fn content_references_to_nav_point(
    current_xhtml: (usize, &str),
    play_order: &mut usize,
    toc_index: &str,
    content_references: &Vec<ContentReference>,
    link_number: &mut usize,
) -> (r: Option<String>)
    requires
        *old(play_order) + count_refs(content_references@, 0) <= usize::MAX,
        *old(link_number) + count_refs(content_references@, 0) <= usize::MAX,
        toc_start(toc_index@) + content_references@.len() <= usize::MAX,
    ensures
        r matches Some(s) && s@ == refs_nav(
            content_references@,
            0,
            current_xhtml.0 as nat,
            current_xhtml.1@,
            toc_prefix(toc_index@),
            toc_start(toc_index@),
            *old(play_order) as nat,
            *old(link_number) as nat,
        ),
        *final(play_order) == *old(play_order) + count_refs(content_references@, 0),
        *final(link_number) == *old(link_number) + count_refs(content_references@, 0),
    decreases content_references@,
{
    let ghost rs = content_references@;
    let ghost f = current_xhtml.0 as nat;
    let ghost fname = current_xhtml.1@;
    let ghost pre = toc_prefix(toc_index@);
    let ghost sib0 = toc_start(toc_index@);
    let ghost p0 = *play_order as nat;
    let ghost l0 = *link_number as nat;

    let idx_len = toc_index.unicode_len();
    proof {
        crate::numbering::lemma_last_index_of_range(toc_index@, '-');
    }
    let (prefix, start): (&str, usize) = match crate::numbering::find_last(toc_index, '-') {
        Some(i) => {
            let seg = toc_index.substring_char(i + 1, idx_len);
            let n = match crate::numbering::parse_usize(seg) {
                Some(v) => v,
                None => 0,
            };
            (toc_index.substring_char(0, i), n)
        },
        None => ("", 0),
    };
    proof {
        reveal_strlit("");
        assert(""@ =~= Seq::<char>::empty());
        assert(prefix@ == pre);
        assert(start as nat == sib0);
    }
    let mut toc_number: usize = start;
    let mut result = String::new();
    let mut j: usize = 0;
    while j < content_references.len()
        invariant
            rs == content_references@,
            0 <= j <= rs.len(),
            sib0 + rs.len() <= usize::MAX,
            prefix@ == pre,
            toc_number as nat == sib0 + j,
            current_xhtml.0 as nat == f,
            current_xhtml.1@ == fname,
            *play_order + count_refs(rs, j as int) <= usize::MAX,
            *play_order as nat == p0 + count_refs(rs, 0) - count_refs(rs, j as int),
            *link_number + count_refs(rs, j as int) <= usize::MAX,
            *link_number as nat == l0 + count_refs(rs, 0) - count_refs(rs, j as int),
            refs_nav(rs, 0, f, fname, pre, sib0, p0, l0) == result@ + refs_nav(
                rs,
                j as int,
                f,
                fname,
                pre,
                (sib0 + j) as nat,
                *play_order as nat,
                *link_number as nat,
            ),
        decreases rs.len() - j,
    {
        let ghost play_here = *play_order as nat;
        let ghost link_here = *link_number as nat;
        assert(count_refs(rs, j as int) == 1 + count_refs_node(rs[j as int]) + count_refs(
            rs,
            j + 1,
        ));
        let content_reference = &content_references[j];
        *link_number = *link_number + 1;
        let current_link = *link_number;
        toc_number = toc_number + 1;
        let mut current_toc = prefix.to_owned();
        current_toc.append("-");
        let toc_num_str = crate::numbering::dec_string(toc_number as u64);
        current_toc.append(toc_num_str.as_str());
        let ghost cur_path = pre + "-"@ + dec_digits((sib0 + j + 1) as nat);
        proof {
            assert(current_toc@ =~= cur_path);
        }
        *play_order = *play_order + 1;
        let current_play_order = *play_order;

        let src = content_reference.reference_name(current_xhtml.1, current_link);
        append_ref_nav_head(
            &mut result,
            current_xhtml.0 as u64,
            current_toc.as_str(),
            current_play_order as u64,
            content_reference.title.as_str(),
            src.as_str(),
        );
        match &content_reference.subcontent_references {
            Some(subs) => {
                proof {
                    lemma_count_refs_ge_len(subs@, 0);
                    lemma_toc_dash_suffix(cur_path);
                }
                let mut child_index = current_toc.clone();
                child_index.append("-");
                let inner = content_references_to_nav_point(
                    (current_xhtml.0, current_xhtml.1),
                    play_order,
                    child_index.as_str(),
                    subs,
                    link_number,
                );
                match inner {
                    Some(inner_str) => {
                        result.append(inner_str.as_str());
                    },
                    None => {
                        proof {
                            assert(false);
                        }
                    },
                }
            },
            None => {
            },
        }
        result.append("</navPoint>");
        proof {
            let inner_spec = match rs[j as int].subcontent_references {
                Some(v) => refs_nav(v@, 0, f, fname, cur_path, 0, play_here + 1, link_here + 1),
                None => Seq::<char>::empty(),
            };
            assert(refs_nav(rs, j as int, f, fname, pre, (sib0 + j) as nat, play_here, link_here)
                == ref_nav_xml(
                f,
                cur_path,
                play_here + 1,
                rs[j as int].title@,
                ref_src(rs[j as int], fname, link_here + 1),
                inner_spec,
            ) + refs_nav(
                rs,
                j + 1,
                f,
                fname,
                pre,
                (sib0 + j + 1) as nat,
                play_here + 1 + count_refs_node(rs[j as int]),
                link_here + 1 + count_refs_node(rs[j as int]),
            ));
            assert(refs_nav(rs, 0, f, fname, pre, sib0, p0, l0) =~= result@ + refs_nav(
                rs,
                j + 1,
                f,
                fname,
                pre,
                (sib0 + j + 1) as nat,
                *play_order as nat,
                *link_number as nat,
            ));
        }
        j = j + 1;
    }
    proof {
        assert(refs_nav(rs, rs.len() as int, f, fname, pre, (sib0 + rs.len()) as nat,
            *play_order as nat, *link_number as nat) =~= Seq::<char>::empty());
        assert(result@ =~= refs_nav(rs, 0, f, fname, pre, sib0, p0, l0));
    }
    Some(result)
}

/// Emits the navPoint block of one content unit into `result`: the unit
/// ticks the shared play order, takes the next pre-order file number, and
/// nests its reference chain (with a fresh anchor-link counter) and then
/// its sub-units inside its own navPoint.
#[verifier::rlimit(100)]
fn content_nav_point(
    play_order: &mut usize,
    file_number: &mut usize,
    content: &Content,
    result: &mut String,
)
    requires
        *old(play_order) + nav_count_node(*content) <= usize::MAX,
        *old(file_number) + count_node(*content) <= usize::MAX,
    ensures
        final(result)@ == old(result)@ + content_nav_node(
            *content,
            *old(play_order) as nat,
            *old(file_number) as nat,
        ),
        *final(play_order) == *old(play_order) + nav_count_node(*content),
        *final(file_number) == *old(file_number) + count_node(*content),
    decreases *content,
{
    let ghost play_here = *play_order as nat;
    let ghost file_here = *file_number as nat;
    *play_order = *play_order + 1;
    *file_number = *file_number + 1;
    let current_play_order = *play_order;
    let filename = content.filename(*file_number);

    append_content_nav_head(result, current_play_order as u64, content.title(), filename.as_str());
    match &content.content_references {
        Some(refs) => {
            proof {
                lemma_count_refs_ge_len(refs@, 0);
                reveal_strlit("");
                assert(""@ =~= Seq::<char>::empty());
                assert(last_index_of(""@, '-') is None);
                assert(toc_prefix(""@) =~= Seq::<char>::empty());
            }
            let mut link_number: usize = 0;
            let inner = content_references_to_nav_point(
                (*file_number, filename.as_str()),
                play_order,
                "",
                refs,
                &mut link_number,
            );
            match inner {
                Some(inner_str) => {
                    result.append(inner_str.as_str());
                },
                None => {
                    proof {
                        assert(false);
                    }
                },
            }
        },
        None => {
        },
    }
    match &content.subcontents {
        Some(subs) => {
            let inner = contents_to_nav_point(play_order, file_number, subs);
            match inner {
                Some(inner_str) => {
                    result.append(inner_str.as_str());
                },
                None => {
                    proof {
                        assert(false);
                    }
                },
            }
        },
        None => {
        },
    }
    result.append("</navPoint>");
    proof {
        assert(result@ =~= old(result)@ + content_nav_node(*content, play_here, file_here));
    }
}

/// Generates the navPoints of the content subtrees in `contents`: each
/// unit ticks the shared play order, takes the next pre-order file
/// number, and nests its reference chain (with a fresh anchor counter)
/// and then its sub-units inside its own navPoint.
pub fn contents_to_nav_point(
    play_order: &mut usize,
    file_number: &mut usize,
    contents: &Vec<Content>,
) -> (r: Option<String>)
    requires
        *old(play_order) + nav_count_seq(contents@, 0) <= usize::MAX,
        *old(file_number) + count_seq(contents@, 0) <= usize::MAX,
    ensures
        r matches Some(s) && s@ == contents_nav(
            contents@,
            0,
            *old(play_order) as nat,
            *old(file_number) as nat,
        ),
        *final(play_order) == *old(play_order) + nav_count_seq(contents@, 0),
        *final(file_number) == *old(file_number) + count_seq(contents@, 0),
    decreases contents@,
{
    let ghost cs = contents@;
    let ghost p0 = *play_order as nat;
    let ghost f0 = *file_number as nat;
    let mut result = String::new();
    let mut i: usize = 0;
    while i < contents.len()
        invariant
            cs == contents@,
            0 <= i <= cs.len(),
            *play_order + nav_count_seq(cs, i as int) <= usize::MAX,
            *play_order as nat == p0 + nav_count_seq(cs, 0) - nav_count_seq(cs, i as int),
            *file_number + count_seq(cs, i as int) <= usize::MAX,
            *file_number as nat == f0 + count_seq(cs, 0) - count_seq(cs, i as int),
            contents_nav(cs, 0, p0, f0) == result@ + contents_nav(
                cs,
                i as int,
                *play_order as nat,
                *file_number as nat,
            ),
        decreases cs.len() - i,
    {
        let ghost play_here = *play_order as nat;
        let ghost file_here = *file_number as nat;
        assert(nav_count_seq(cs, i as int) == nav_count_node(cs[i as int]) + nav_count_seq(
            cs,
            i + 1,
        ));
        assert(count_seq(cs, i as int) == count_node(cs[i as int]) + count_seq(cs, i + 1));
        content_nav_point(play_order, file_number, &contents[i], &mut result);
        proof {
            assert(contents_nav(cs, i as int, play_here, file_here) == content_nav_node(
                cs[i as int],
                play_here,
                file_here,
            ) + contents_nav(
                cs,
                i + 1,
                play_here + nav_count_node(cs[i as int]),
                file_here + count_node(cs[i as int]),
            ));
            assert(contents_nav(cs, 0, p0, f0) =~= result@ + contents_nav(
                cs,
                i + 1,
                *play_order as nat,
                *file_number as nat,
            ));
        }
        i = i + 1;
    }
    proof {
        assert(contents_nav(cs, cs.len() as int, *play_order as nat, *file_number as nat)
            =~= Seq::<char>::empty());
        assert(result@ =~= contents_nav(cs, 0, p0, f0));
    }
    Some(result)
}

/// Generates the `toc.ncx` navigation document.
#[verifier::rlimit(100)]
pub fn toc_ncx(epub: &Epub) -> (r: Result<FileContent<String, String>, crate::Error>)
    requires
        nav_count_seq(contents_seq(*epub), 0) <= usize::MAX,
        count_seq(contents_seq(*epub), 0) <= usize::MAX,
        doc_level(*epub) <= usize::MAX,
    ensures
        r matches Ok(fc) && fc.filepath@ == "OEBPS/toc.ncx"@ && fc.bytes@ == ncx_xml(*epub),
{
    let metadata = &epub.metadata;
    let mut cb = ContentBuilder(
        String::from_str(
            "<?xml version=\"1.0\" encoding=\"UTF-8\"?><!DOCTYPE ncx PUBLIC \"-//NISO//DTD ncx 2005-1//EN\" \"http://www.daisy.org/z3986/2005/ncx-2005-1.dtd\">\n        <ncx xmlns=\"http://www.daisy.org/z3986/2005/ncx/\" version=\"2005-1\"><head>",
        ),
    );
    let id_xml = metadata.identifier.as_toc_xml();
    cb.add(id_xml.as_str());
    let level_xml = epub.level_as_toc_xml();
    cb.add(level_xml.as_str());
    cb.add(
        "<meta name=\"dtb:totalPageCount\" content=\"0\"/><meta name=\"dtb:maxPageNumber\" content=\"0\"/></head>\n                        <docTitle><text>",
    );
    cb.add(metadata.title.as_str());
    cb.add("</text></docTitle><navMap>");
    match &epub.contents {
        Some(contents) => {
            let mut play_order: usize = 0;
            let mut file_number: usize = 0;
            let nav = contents_to_nav_point(&mut play_order, &mut file_number, contents);
            cb.add_optional(nav.as_ref());
        },
        None => {
            proof {
                assert(contents_nav(contents_seq(*epub), 0, 0, 0) =~= Seq::<char>::empty());
            }
        },
    }
    cb.add("</navMap></ncx>");
    let fc = FileContent::new(String::from_str("OEBPS/toc.ncx"), cb.build());
    proof {
        assert(fc.bytes@ =~= ncx_xml(*epub));
    }
    Ok(fc)
}

} // verus!
