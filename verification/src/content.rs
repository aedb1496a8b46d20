//! Content units: the ordered, recursively nestable tree of textual units
//! that the archive's XHTML documents, package manifest and navigation map
//! are all generated from.

use vstd::prelude::*;

verus! {

use vstd::string::StringExecFns;
use crate::content_reference::{ContentReference, ref_level};
use crate::file_content::FileContent;
use crate::numbering::dec_pad2;
use crate::xml::pretty_xml;
use vstd::utf8::{valid_utf8, decode_utf8};

/// The semantic role of a content unit, together with its human title.
/// The role string is emitted into the OPF guide section.
#[derive(Debug)]
pub enum ReferenceType {
    Acknowledgements(String),
    Bibliography(String),
    Colophon(String),
    Copyright(String),
    Cover(String),
    Dedication(String),
    Epigraph(String),
    Foreword(String),
    Glossary(String),
    Index(String),
    Loi(String),
    Lot(String),
    Notes(String),
    Preface(String),
    Text(String),
    TitlePage(String),
    Toc(String),
}

/// The machine role string of a reference type, as the OPF guide uses it.
pub open spec fn role(rt: ReferenceType) -> Seq<char> {
    match rt {
        ReferenceType::Acknowledgements(_) => "acknowledgements"@,
        ReferenceType::Bibliography(_) => "bibliography"@,
        ReferenceType::Colophon(_) => "colophon"@,
        ReferenceType::Copyright(_) => "copyright-page"@,
        ReferenceType::Cover(_) => "cover"@,
        ReferenceType::Dedication(_) => "dedication"@,
        ReferenceType::Epigraph(_) => "epigraph"@,
        ReferenceType::Foreword(_) => "foreword"@,
        ReferenceType::Glossary(_) => "glossary"@,
        ReferenceType::Index(_) => "index"@,
        ReferenceType::Loi(_) => "loi"@,
        ReferenceType::Lot(_) => "lot"@,
        ReferenceType::Notes(_) => "notes"@,
        ReferenceType::Preface(_) => "preface"@,
        ReferenceType::Text(_) => "text"@,
        ReferenceType::TitlePage(_) => "title-page"@,
        ReferenceType::Toc(_) => "toc"@,
    }
}

/// The human title carried by a reference type.
pub open spec fn title_view(rt: ReferenceType) -> Seq<char> {
    match rt {
        ReferenceType::Acknowledgements(s) => s@,
        ReferenceType::Bibliography(s) => s@,
        ReferenceType::Colophon(s) => s@,
        ReferenceType::Copyright(s) => s@,
        ReferenceType::Cover(s) => s@,
        ReferenceType::Dedication(s) => s@,
        ReferenceType::Epigraph(s) => s@,
        ReferenceType::Foreword(s) => s@,
        ReferenceType::Glossary(s) => s@,
        ReferenceType::Index(s) => s@,
        ReferenceType::Loi(s) => s@,
        ReferenceType::Lot(s) => s@,
        ReferenceType::Notes(s) => s@,
        ReferenceType::Preface(s) => s@,
        ReferenceType::Text(s) => s@,
        ReferenceType::TitlePage(s) => s@,
        ReferenceType::Toc(s) => s@,
    }
}

impl ReferenceType {
    /// The machine role string and the human title of this reference type.
    pub fn type_and_title(&self) -> (r: (&str, &str))
        ensures
            r.0@ == role(*self),
            r.1@ == title_view(*self),
    {
        match self {
            Self::Acknowledgements(s) => ("acknowledgements", s.as_str()),
            Self::Bibliography(s) => ("bibliography", s.as_str()),
            Self::Colophon(s) => ("colophon", s.as_str()),
            Self::Copyright(s) => ("copyright-page", s.as_str()),
            Self::Cover(s) => ("cover", s.as_str()),
            Self::Dedication(s) => ("dedication", s.as_str()),
            Self::Epigraph(s) => ("epigraph", s.as_str()),
            Self::Foreword(s) => ("foreword", s.as_str()),
            Self::Glossary(s) => ("glossary", s.as_str()),
            Self::Index(s) => ("index", s.as_str()),
            Self::Loi(s) => ("loi", s.as_str()),
            Self::Lot(s) => ("lot", s.as_str()),
            Self::Notes(s) => ("notes", s.as_str()),
            Self::Preface(s) => ("preface", s.as_str()),
            Self::Text(s) => ("text", s.as_str()),
            Self::TitlePage(s) => ("title-page", s.as_str()),
            Self::Toc(s) => ("toc", s.as_str()),
        }
    }
}

impl Clone for ReferenceType {
    /// A copy of the reference type, with the same role and title.
    fn clone(&self) -> (r: Self)
        ensures
            role(r) == role(*self),
            title_view(r) == title_view(*self),
    {
        match self {
            Self::Acknowledgements(s) => Self::Acknowledgements(s.clone()),
            Self::Bibliography(s) => Self::Bibliography(s.clone()),
            Self::Colophon(s) => Self::Colophon(s.clone()),
            Self::Copyright(s) => Self::Copyright(s.clone()),
            Self::Cover(s) => Self::Cover(s.clone()),
            Self::Dedication(s) => Self::Dedication(s.clone()),
            Self::Epigraph(s) => Self::Epigraph(s.clone()),
            Self::Foreword(s) => Self::Foreword(s.clone()),
            Self::Glossary(s) => Self::Glossary(s.clone()),
            Self::Index(s) => Self::Index(s.clone()),
            Self::Loi(s) => Self::Loi(s.clone()),
            Self::Lot(s) => Self::Lot(s.clone()),
            Self::Notes(s) => Self::Notes(s.clone()),
            Self::Preface(s) => Self::Preface(s.clone()),
            Self::Text(s) => Self::Text(s.clone()),
            Self::TitlePage(s) => Self::TitlePage(s.clone()),
            Self::Toc(s) => Self::Toc(s.clone()),
        }
    }
}

/// One unit of textual content: raw body bytes, a semantic role and title,
/// optional nested sub-units, optional in-page references, and an optional
/// explicit filename override.
#[derive(Debug)]
pub struct Content {
    /// The raw body, which must be valid UTF-8 text when the unit is
    /// serialised.
    pub body: Vec<u8>,
    /// The semantic role and human title of the unit.
    pub reference_type: ReferenceType,
    /// Optional nested sub-units.
    pub subcontents: Option<Vec<Content>>,
    /// Optional in-page reference entries for the navigation map.
    pub content_references: Option<Vec<ContentReference>>,
    /// An optional explicit filename. When present it must end in the
    /// content-document extension, or generation fails.
    pub filename: Option<String>,
}

/// The sub-units of a content node, as a sequence; an absent list and an
/// empty list both count as no children.
pub open spec fn kids(c: Content) -> Seq<Content> {
    match c.subcontents {
        Some(v) => v@,
        None => Seq::empty(),
    }
}

/// The in-page references of a content node, as a sequence.
pub open spec fn crefs(c: Content) -> Seq<ContentReference> {
    match c.content_references {
        Some(v) => v@,
        None => Seq::empty(),
    }
}

/// The number of content nodes in the subtree rooted at `c`, itself
/// included.
pub open spec fn count_node(c: Content) -> nat
    decreases c, 0int,
{
    1 + match c.subcontents {
        Some(v) => count_seq(v@, 0),
        None => 0,
    }
}

/// The number of content nodes in the subtrees of `cs[i..]`.
pub open spec fn count_seq(cs: Seq<Content>, i: int) -> nat
    decreases cs, cs.len() - i + 1,
{
    if 0 <= i < cs.len() {
        count_node(cs[i]) + count_seq(cs, i + 1)
    } else {
        0
    }
}

/// The filenames the numbering resolver assigns within the subtree rooted
/// at `c`, in pre-order, when `c` holds numbering slot `n + 1`.
pub open spec fn assigned_names_node(c: Content, n: nat) -> Seq<Seq<char>>
    decreases c, 0int,
{
    seq![node_name(c, n + 1)] + match c.subcontents {
        Some(v) => assigned_names_seq(v@, 0, n + 1),
        None => Seq::empty(),
    }
}

/// The filenames the numbering resolver assigns to the subtrees of
/// `cs[i..]`, numbered consecutively from slot `n + 1`.
pub open spec fn assigned_names_seq(cs: Seq<Content>, i: int, n: nat) -> Seq<Seq<char>>
    decreases cs, cs.len() - i + 1,
{
    if 0 <= i < cs.len() {
        assigned_names_node(cs[i], n) + assigned_names_seq(cs, i + 1, n + count_node(cs[i]))
    } else {
        Seq::empty()
    }
}

/// Law: the numbering resolver is a pure function of traversal order and
/// explicit overrides: any two runs over the same forest from the same
/// counter assign identical filename sequences.
pub proof fn lemma_numbering_deterministic(
    cs: Seq<Content>,
    n: nat,
    r1: Seq<Seq<char>>,
    r2: Seq<Seq<char>>,
)
    requires
        r1 == assigned_names_seq(cs, 0, n),
        r2 == assigned_names_seq(cs, 0, n),
    ensures
        r1 == r2,
{
}

/// The subtree depth of a content node: zero for a leaf, otherwise one
/// more than the depth of its first sub-unit. Later siblings do not count,
/// even when they nest deeper.
pub open spec fn level_spec(c: Content) -> nat
    decreases c,
{
    match c.subcontents {
        Some(v) => {
            if v@.len() > 0 {
                1 + level_spec(v@[0])
            } else {
                0
            }
        },
        None => 0,
    }
}

/// The combined reference depth of a content node: the larger of one more
/// than the depth of its first reference chain and one more than the
/// combined depth of its first sub-unit.
pub open spec fn level_ref_spec(c: Content) -> nat
    decreases c,
{
    let ref_part: nat = match c.content_references {
        Some(v) => {
            if v@.len() > 0 {
                1 + ref_level(v@[0])
            } else {
                0
            }
        },
        None => 0,
    };
    let sub_part: nat = match c.subcontents {
        Some(v) => {
            if v@.len() > 0 {
                1 + level_ref_spec(v@[0])
            } else {
                0
            }
        },
        None => 0,
    };
    if ref_part >= sub_part {
        ref_part
    } else {
        sub_part
    }
}

/// The filename assigned to a content node holding the `n`-th numbering
/// slot: its explicit override when present, otherwise the zero-padded
/// sequential name.
pub open spec fn node_name(c: Content, n: nat) -> Seq<char> {
    match c.filename {
        Some(f) => f@,
        None => "c"@ + dec_pad2(n) + ".xhtml"@,
    }
}

/// Whether `body` already begins with an XML declaration, marking it as an
/// already-serialised document.
pub open spec fn starts_xml_decl(body: Seq<char>) -> bool {
    body.len() >= 5 && body[0] == '<' && body[1] == '?' && body[2] == 'x' && body[3] == 'm'
        && body[4] == 'l'
}

/// The XHTML 1.1 document wrapping `body` under `title`, with an optional
/// stylesheet link. A body that already begins with an XML declaration is
/// treated as already serialised and passes through unchanged.
pub open spec fn xhtml_doc(title: Seq<char>, body: Seq<char>, add_stylesheet: bool) -> Seq<char> {
    if starts_xml_decl(body) {
        body
    } else {
        "<?xml version=\"1.0\" encoding=\"utf-8\"?><!DOCTYPE html PUBLIC \"-//W3C//DTD XHTML 1.1//EN\" \"http://www.w3.org/TR/xhtml11/DTD/xhtml11.dtd\">\n            <html xmlns=\"http://www.w3.org/1999/xhtml\"><head><title>"@
            + title + "</title>"@ + (if add_stylesheet {
            "<link href=\"style.css\" rel=\"stylesheet\" type=\"text/css\"/>"@
        } else {
            Seq::empty()
        }) + "</head>"@ + body + "</html>"@
    }
}

/// Whether every body in the subtree rooted at `c` is valid UTF-8.
pub open spec fn bodies_utf8_node(c: Content) -> bool
    decreases c, 0int,
{
    valid_utf8(c.body@) && match c.subcontents {
        Some(v) => bodies_utf8_seq(v@, 0),
        None => true,
    }
}

/// Whether every body in the subtrees of `cs[i..]` is valid UTF-8.
pub open spec fn bodies_utf8_seq(cs: Seq<Content>, i: int) -> bool
    decreases cs, cs.len() - i + 1,
{
    if 0 <= i < cs.len() {
        bodies_utf8_node(cs[i]) && bodies_utf8_seq(cs, i + 1)
    } else {
        true
    }
}

/// The XHTML document text one content node generates: its decoded body
/// wrapped under its title.
pub open spec fn own_doc(c: Content, add_stylesheet: bool) -> Seq<char> {
    xhtml_doc(title_view(c.reference_type), decode_utf8(c.body@), add_stylesheet)
}

/// Whether the XML formatter accepts every document generated in the
/// subtree rooted at `c`.
pub open spec fn docs_ok_node(c: Content, add_stylesheet: bool) -> bool
    decreases c, 0int,
{
    crate::xml::pretty_ok(own_doc(c, add_stylesheet)) && match c.subcontents {
        Some(v) => docs_ok_seq(v@, 0, add_stylesheet),
        None => true,
    }
}

/// Whether the XML formatter accepts every document generated in the
/// subtrees of `cs[i..]`.
pub open spec fn docs_ok_seq(cs: Seq<Content>, i: int, add_stylesheet: bool) -> bool
    decreases cs, cs.len() - i + 1,
{
    if 0 <= i < cs.len() {
        docs_ok_node(cs[i], add_stylesheet) && docs_ok_seq(cs, i + 1, add_stylesheet)
    } else {
        true
    }
}

/// The archive path and formatted text of the document that a content
/// node holding numbering slot `n` produces.
pub open spec fn own_file(c: Content, n: nat, add_stylesheet: bool) -> (Seq<char>, Seq<char>) {
    ("OEBPS/"@ + node_name(c, n), pretty_xml(own_doc(c, add_stylesheet)))
}

/// The archive path and formatted document text of every content file in
/// the subtree rooted at `c`, in pre-order, when `c` holds numbering slot
/// `n + 1`.
pub open spec fn files_node(c: Content, n: nat, add_stylesheet: bool) -> Seq<
    (Seq<char>, Seq<char>),
>
    decreases c, 0int,
{
    seq![own_file(c, n + 1, add_stylesheet)] + match c.subcontents {
        Some(v) => files_seq(v@, 0, n + 1, add_stylesheet),
        None => Seq::empty(),
    }
}

/// The archive paths and formatted document texts of the subtrees of
/// `cs[i..]`, numbered consecutively from slot `n + 1`.
pub open spec fn files_seq(cs: Seq<Content>, i: int, n: nat, add_stylesheet: bool) -> Seq<
    (Seq<char>, Seq<char>),
>
    decreases cs, cs.len() - i + 1,
{
    if 0 <= i < cs.len() {
        files_node(cs[i], n, add_stylesheet) + files_seq(
            cs,
            i + 1,
            n + count_node(cs[i]),
            add_stylesheet,
        )
    } else {
        Seq::empty()
    }
}

/// The path and text of each produced file, for stating what a vector of
/// produced files holds.
pub open spec fn file_views(v: Seq<FileContent<String, String>>) -> Seq<(Seq<char>, Seq<char>)> {
    v.map_values(|fc: FileContent<String, String>| (fc.filepath@, fc.bytes@))
}

proof fn lemma_file_views_concat(a: Seq<FileContent<String, String>>, b: Seq<
    FileContent<String, String>,
>)
    ensures
        file_views(a + b) =~= file_views(a) + file_views(b),
{
}

/// Law: an independent serialisation walk produces exactly one file per
/// numbering slot, and each file's archive path carries exactly the name
/// the resolver assigns to that slot — the agreement every generator
/// depends on.
pub proof fn lemma_files_match_numbering(cs: Seq<Content>, i: int, n: nat, style: bool)
    ensures
        files_seq(cs, i, n, style).len() == assigned_names_seq(cs, i, n).len(),
        forall|k: int|
            0 <= k < files_seq(cs, i, n, style).len() ==> #[trigger] files_seq(
                cs,
                i,
                n,
                style,
            )[k].0 == "OEBPS/"@ + assigned_names_seq(cs, i, n)[k],
    decreases cs, cs.len() - i + 1,
{
    if 0 <= i < cs.len() {
        lemma_files_match_numbering_node(cs[i], n, style);
        lemma_files_match_numbering(cs, i + 1, n + count_node(cs[i]), style);
    }
}

proof fn lemma_files_match_numbering_node(c: Content, n: nat, style: bool)
    ensures
        files_node(c, n, style).len() == assigned_names_node(c, n).len(),
        forall|k: int|
            0 <= k < files_node(c, n, style).len() ==> #[trigger] files_node(c, n, style)[k].0
                == "OEBPS/"@ + assigned_names_node(c, n)[k],
    decreases c, 0int,
{
    match c.subcontents {
        Some(v) => {
            lemma_files_match_numbering(v@, 0, n + 1, style);
        },
        None => {
        },
    }
}

/// Law: the subtree depth follows only the first sub-unit: two units with
/// the same first sub-unit have the same depth, however deep any later
/// sibling nests.
pub proof fn lemma_level_first_child_only(c1: Content, c2: Content)
    requires
        kids(c1).len() > 0,
        kids(c2).len() > 0,
        kids(c1)[0] == kids(c2)[0],
    ensures
        level_spec(c1) == level_spec(c2),
        level_spec(c1) == 1 + level_spec(kids(c1)[0]),
{
}

impl Content {
    /// Creates a content unit from its body bytes and reference type, with
    /// no sub-units, references or filename override.
    pub fn new(body: Vec<u8>, reference_type: ReferenceType) -> (r: Self)
        ensures
            r.body == body,
            r.reference_type == reference_type,
            r.subcontents is None,
            r.content_references is None,
            r.filename is None,
    {
        Self { body, reference_type, subcontents: None, content_references: None, filename: None }
    }

    /// The subtree depth of this unit: zero for a leaf, otherwise one more
    /// than the depth of its first sub-unit.
    pub fn level(&self) -> (r: usize)
        requires
            level_spec(*self) <= usize::MAX,
        ensures
            r == level_spec(*self),
        decreases *self,
    {
        match &self.subcontents {
            Some(v) => {
                if v.len() > 0 {
                    1 + v[0].level()
                } else {
                    0
                }
            },
            None => 0,
        }
    }

    /// The combined reference depth of this unit: the larger of the depth
    /// through its first reference chain and through its first sub-unit.
    pub fn level_reference_content(&self) -> (r: usize)
        requires
            level_ref_spec(*self) <= usize::MAX,
        ensures
            r == level_ref_spec(*self),
        decreases *self,
    {
        let content_references_level: usize = match &self.content_references {
            Some(v) => {
                if v.len() > 0 {
                    1 + v[0].level()
                } else {
                    0
                }
            },
            None => 0,
        };
        let subcontents_cont_ref_level: usize = match &self.subcontents {
            Some(v) => {
                if v.len() > 0 {
                    1 + v[0].level_reference_content()
                } else {
                    0
                }
            },
            None => 0,
        };
        if content_references_level >= subcontents_cont_ref_level {
            content_references_level
        } else {
            subcontents_cont_ref_level
        }
    }

    /// The filename of this unit when it holds numbering slot `number`:
    /// the explicit override when present, otherwise the zero-padded
    /// sequential name.
    pub fn filename(&self, number: usize) -> (r: String)
        ensures
            r@ == node_name(*self, number as nat),
    {
        match &self.filename {
            Some(f) => f.clone(),
            None => {
                let mut s = String::from_str("c");
                let num = crate::numbering::dec_pad2_string(number as u64);
                s.append(num.as_str());
                s.append(".xhtml");
                proof {
                    assert(s@ =~= node_name(*self, number as nat));
                }
                s
            },
        }
    }

    /// The human title of this unit.
    pub fn title(&self) -> (r: &str)
        ensures
            r@ == title_view(self.reference_type),
    {
        self.reference_type.type_and_title().1
    }

    /// Wraps `text` into a complete XHTML 1.1 document carrying this
    /// unit's title, with a stylesheet link when asked for. A body that
    /// already begins with an XML declaration passes through unchanged.
    pub fn xhtml(&self, text: &str, add_stylesheet: bool) -> (r: String)
        ensures
            r@ == xhtml_doc(title_view(self.reference_type), text@, add_stylesheet),
    {
        if text.unicode_len() >= 5 {
            let already = text.get_char(0) == '<' && text.get_char(1) == '?' && text.get_char(2)
                == 'x' && text.get_char(3) == 'm' && text.get_char(4) == 'l';
            if already {
                return text.to_owned();
            }
        }
        let mut s = String::from_str(
            "<?xml version=\"1.0\" encoding=\"utf-8\"?><!DOCTYPE html PUBLIC \"-//W3C//DTD XHTML 1.1//EN\" \"http://www.w3.org/TR/xhtml11/DTD/xhtml11.dtd\">\n            <html xmlns=\"http://www.w3.org/1999/xhtml\"><head><title>",
        );
        s.append(self.title());
        s.append("</title>");
        if add_stylesheet {
            s.append("<link href=\"style.css\" rel=\"stylesheet\" type=\"text/css\"/>");
        }
        s.append("</head>");
        s.append(text);
        s.append("</html>");
        proof {
            assert(s@ =~= xhtml_doc(title_view(self.reference_type), text@, add_stylesheet));
        }
        s
    }

    /// The number of content nodes in this unit's subtree, itself included.
    #[verifier::rlimit(100)]
    pub fn count(&self) -> (r: usize)
        requires
            count_node(*self) <= usize::MAX,
        ensures
            r == count_node(*self),
        decreases *self,
    {
        match &self.subcontents {
            Some(subs) => {
                let ghost kseq = subs@;
                let mut total: usize = 1;
                let mut j: usize = 0;
                while j < subs.len()
                    invariant
                        subs@ == kseq,
                        kseq == kids(*self),
                        0 <= j <= kseq.len(),
                        count_node(*self) <= usize::MAX,
                        count_node(*self) == total + count_seq(kseq, j as int),
                    decreases kseq.len() - j,
                {
                    assert(count_seq(kseq, j as int) == count_node(kseq[j as int]) + count_seq(
                        kseq,
                        j + 1,
                    ));
                    let c = subs[j].count();
                    total = total + c;
                    j = j + 1;
                }
                total
            },
            None => 1,
        }
    }

    /// Serialises this unit and, recursively, its sub-units into formatted
    /// XHTML documents, assigning filenames from the shared numbering
    /// counter in pre-order.
    #[verifier::rlimit(100)]
    pub fn file_content(&self, number: &mut usize, add_stylesheet: bool) -> (r: Result<
        Vec<FileContent<String, String>>,
        crate::Error,
    >)
        requires
            *old(number) + count_node(*self) <= usize::MAX,
        ensures
            r is Ok <==> bodies_utf8_node(*self) && docs_ok_node(*self, add_stylesheet),
            r matches Ok(v) ==> *final(number) == *old(number) + count_node(*self) && file_views(
                v@,
            ) == files_node(*self, *old(number) as nat, add_stylesheet),
            r matches Err(e) ==> (e matches crate::Error::Utf8 || e matches crate::Error::XmlParser(
                ..,
            ) || e matches crate::Error::Io(..)),
        decreases *self,
    {
        let ghost n0 = *number as nat;
        *number = *number + 1;
        let filepath = {
            let mut s = String::from_str("OEBPS/");
            let name = self.filename(*number);
            s.append(name.as_str());
            s
        };
        let text = match crate::xml::bytes_to_str(self.body.as_slice()) {
            Ok(t) => t,
            Err(e) => {
                return Err(e);
            },
        };
        let xhtml_content = match crate::xml::format(self.xhtml(text, add_stylesheet).as_str()) {
            Ok(t) => t,
            Err(e) => {
                return Err(e);
            },
        };
        let mut file_contents: Vec<FileContent<String, String>> = Vec::new();
        file_contents.push(FileContent::new(filepath, xhtml_content));
        proof {
            assert(file_views(file_contents@) =~= seq![own_file(*self, n0 + 1, add_stylesheet)]);
        }
        match &self.subcontents {
            Some(subs) => {
                let ghost kseq = subs@;
                let mut j: usize = 0;
                while j < subs.len()
                    invariant
                        0 <= j <= kseq.len(),
                        subs@ == kseq,
                        kseq == kids(*self),
                        *number + count_seq(kseq, j as int) <= usize::MAX,
                        *number == n0 + 1 + count_seq(kseq, 0) - count_seq(kseq, j as int),
                        file_views(file_contents@) + files_seq(
                            kseq,
                            j as int,
                            *number as nat,
                            add_stylesheet,
                        ) == files_node(*self, n0, add_stylesheet),
                        forall|i: int|
                            0 <= i < j ==> bodies_utf8_node(#[trigger] kseq[i]) && docs_ok_node(
                                #[trigger] kseq[i],
                                add_stylesheet,
                            ),
                    decreases kseq.len() - j,
                {
                    let child_files = match subs[j].file_content(number, add_stylesheet) {
                        Ok(v) => v,
                        Err(e) => {
                            proof {
                                if bodies_utf8_node(*self) && docs_ok_node(*self, add_stylesheet) {
                                    lemma_bodies_utf8_seq_at(kseq, j as int);
                                    lemma_docs_ok_seq_at(kseq, j as int, add_stylesheet);
                                    assert(false);
                                }
                            }
                            return Err(e);
                        },
                    };
                    let ghost before = file_contents@;
                    let mut child_files = child_files;
                    file_contents.append(&mut child_files);
                    proof {
                        lemma_file_views_concat(before, child_files@);
                    }
                    j = j + 1;
                }
                proof {
                    lemma_bodies_utf8_seq_all(kseq);
                    lemma_docs_ok_seq_all(kseq, add_stylesheet);
                }
            },
            None => {
            },
        }
        proof {
            assert(files_seq(kids(*self), kids(*self).len() as int, *number as nat, add_stylesheet)
                =~= Seq::<(Seq<char>, Seq<char>)>::empty());
            assert(file_views(file_contents@) + Seq::<(Seq<char>, Seq<char>)>::empty()
                =~= file_views(file_contents@));
        }
        Ok(file_contents)
    }
}

/// Inside a subtree whose bodies are all valid, each child subtree's
/// bodies are valid.
pub proof fn lemma_bodies_utf8_seq_at(cs: Seq<Content>, j: int)
    requires
        0 <= j < cs.len(),
        bodies_utf8_seq(cs, 0),
    ensures
        bodies_utf8_seq(cs, j),
        bodies_utf8_node(cs[j]),
    decreases j,
{
    if j > 0 {
        lemma_bodies_utf8_seq_at(cs, j - 1);
        assert(bodies_utf8_seq(cs, j - 1));
        assert(bodies_utf8_seq(cs, j));
    }
    assert(bodies_utf8_node(cs[j]));
}

/// When every subtree of a sequence has valid bodies, the sequence as a
/// whole does.
pub proof fn lemma_bodies_utf8_seq_all(cs: Seq<Content>)
    requires
        forall|i: int| 0 <= i < cs.len() ==> bodies_utf8_node(#[trigger] cs[i]),
    ensures
        bodies_utf8_seq(cs, 0),
{
    lemma_bodies_utf8_seq_from(cs, 0);
}

proof fn lemma_bodies_utf8_seq_from(cs: Seq<Content>, i: int)
    requires
        0 <= i <= cs.len(),
        forall|k: int| 0 <= k < cs.len() ==> bodies_utf8_node(#[trigger] cs[k]),
    ensures
        bodies_utf8_seq(cs, i),
    decreases cs.len() - i,
{
    if i < cs.len() {
        lemma_bodies_utf8_seq_from(cs, i + 1);
    }
}

/// Inside a subtree whose documents are all accepted, each child
/// subtree's documents are accepted.
pub proof fn lemma_docs_ok_seq_at(cs: Seq<Content>, j: int, add_stylesheet: bool)
    requires
        0 <= j < cs.len(),
        docs_ok_seq(cs, 0, add_stylesheet),
    ensures
        docs_ok_seq(cs, j, add_stylesheet),
        docs_ok_node(cs[j], add_stylesheet),
    decreases j,
{
    if j > 0 {
        lemma_docs_ok_seq_at(cs, j - 1, add_stylesheet);
        assert(docs_ok_seq(cs, j - 1, add_stylesheet));
        assert(docs_ok_seq(cs, j, add_stylesheet));
    }
    assert(docs_ok_node(cs[j], add_stylesheet));
}

/// When every subtree of a sequence has accepted documents, the sequence
/// as a whole does.
pub proof fn lemma_docs_ok_seq_all(cs: Seq<Content>, add_stylesheet: bool)
    requires
        forall|i: int| 0 <= i < cs.len() ==> docs_ok_node(#[trigger] cs[i], add_stylesheet),
    ensures
        docs_ok_seq(cs, 0, add_stylesheet),
{
    lemma_docs_ok_seq_from(cs, 0, add_stylesheet);
}

proof fn lemma_docs_ok_seq_from(cs: Seq<Content>, i: int, add_stylesheet: bool)
    requires
        0 <= i <= cs.len(),
        forall|k: int| 0 <= k < cs.len() ==> docs_ok_node(#[trigger] cs[k], add_stylesheet),
    ensures
        docs_ok_seq(cs, i, add_stylesheet),
    decreases cs.len() - i,
{
    if i < cs.len() {
        lemma_docs_ok_seq_from(cs, i + 1, add_stylesheet);
    }
}

impl Clone for Content {
    /// A deep copy of the content tree.
    fn clone(&self) -> (r: Self)
        decreases *self,
    {
        let subs = match &self.subcontents {
            Some(v) => Some(clone_content_vec(v)),
            None => None,
        };
        let refs = match &self.content_references {
            Some(v) => Some(v.clone()),
            None => None,
        };
        let filename = match &self.filename {
            Some(s) => Some(s.clone()),
            None => None,
        };
        Content {
            body: self.body.clone(),
            reference_type: self.reference_type.clone(),
            subcontents: subs,
            content_references: refs,
            filename,
        }
    }
}

/// A deep copy of a vector of content trees.
fn clone_content_vec(v: &Vec<Content>) -> (r: Vec<Content>)
    decreases *v,
{
    let mut out: Vec<Content> = Vec::new();
    let mut i: usize = 0;
    while i < v.len()
        invariant
            0 <= i <= v@.len(),
        decreases v@.len() - i,
    {
        out.push(v[i].clone());
        i = i + 1;
    }
    out
}

/// A fluent builder assembling a content unit.
#[derive(Debug)]
pub struct ContentBuilder(pub Content);

impl ContentBuilder {
    /// Starts a builder from the unit's body bytes and reference type.
    pub fn new(body: Vec<u8>, reference_type: ReferenceType) -> (r: Self)
        ensures
            r.0.body == body,
            r.0.reference_type == reference_type,
            r.0.subcontents is None,
            r.0.content_references is None,
            r.0.filename is None,
    {
        Self(Content::new(body, reference_type))
    }

    /// Adds a single sub-unit.
    pub fn add_child(self, content: Content) -> (r: Self)
        ensures
            r.0.body == self.0.body,
            r.0.reference_type == self.0.reference_type,
            r.0.content_references == self.0.content_references,
            r.0.filename == self.0.filename,
            r.0.subcontents matches Some(v) && v@ == kids(self.0).push(content),
    {
        let Self(mut c) = self;
        let mut subs = match c.subcontents {
            Some(v) => v,
            None => Vec::new(),
        };
        subs.push(content);
        c.subcontents = Some(subs);
        Self(c)
    }

    /// Adds a vector of sub-units.
    pub fn add_children(self, contents: Vec<Content>) -> (r: Self)
        ensures
            r.0.body == self.0.body,
            r.0.reference_type == self.0.reference_type,
            r.0.content_references == self.0.content_references,
            r.0.filename == self.0.filename,
            r.0.subcontents matches Some(v) && v@ == kids(self.0) + contents@,
    {
        let Self(mut c) = self;
        let mut subs = match c.subcontents {
            Some(v) => v,
            None => Vec::new(),
        };
        let mut rest = contents;
        subs.append(&mut rest);
        c.subcontents = Some(subs);
        Self(c)
    }

    /// Adds a single in-page reference entry.
    pub fn add_content_reference(self, content_reference: ContentReference) -> (r: Self)
        ensures
            r.0.body == self.0.body,
            r.0.reference_type == self.0.reference_type,
            r.0.subcontents == self.0.subcontents,
            r.0.filename == self.0.filename,
            r.0.content_references matches Some(v) && v@ == crefs(self.0).push(content_reference),
    {
        let Self(mut c) = self;
        let mut refs = match c.content_references {
            Some(v) => v,
            None => Vec::new(),
        };
        refs.push(content_reference);
        c.content_references = Some(refs);
        Self(c)
    }

    /// Adds a vector of in-page reference entries.
    pub fn add_content_references(self, content_references: Vec<ContentReference>) -> (r: Self)
        ensures
            r.0.body == self.0.body,
            r.0.reference_type == self.0.reference_type,
            r.0.subcontents == self.0.subcontents,
            r.0.filename == self.0.filename,
            r.0.content_references matches Some(v) && v@ == crefs(self.0) + content_references@,
    {
        let Self(mut c) = self;
        let mut refs = match c.content_references {
            Some(v) => v,
            None => Vec::new(),
        };
        let mut rest = content_references;
        refs.append(&mut rest);
        c.content_references = Some(refs);
        Self(c)
    }

    /// Sets the explicit filename override.
    pub fn filename(self, name: &str) -> (r: Self)
        ensures
            r.0.body == self.0.body,
            r.0.reference_type == self.0.reference_type,
            r.0.subcontents == self.0.subcontents,
            r.0.content_references == self.0.content_references,
            r.0.filename matches Some(f) && f@ == name@,
    {
        let Self(mut c) = self;
        c.filename = Some(name.to_owned());
        Self(c)
    }

    /// Finishes the builder, handing out the assembled unit.
    pub fn build(self) -> (r: Content)
        ensures
            r == self.0,
    {
        self.0
    }
}

} // verus!
