//! In-page anchor entries: the nested reference tree that a content unit
//! carries into the navigation map.

use vstd::prelude::*;

verus! {

use crate::numbering::dec_pad2;
use vstd::string::StringExecFns;

/// A single entry in a hierarchical list of in-page references (for
/// example, a sub-heading inside the XHTML file of its owning content
/// unit). A reference links a display title to an anchor and may nest
/// further sub-references.
#[derive(Debug)]
pub struct ContentReference {
    /// The display title for this reference entry.
    pub title: String,
    /// Optional nested sub-entries.
    pub subcontent_references: Option<Vec<ContentReference>>,
    /// An optional, caller-chosen anchor id within the owning content file.
    /// When absent, a sequential anchor id is generated during output.
    pub id: Option<String>,
}

/// The children of a reference node, as a sequence; an absent list and an
/// empty list both count as no children.
pub open spec fn ref_children(r: ContentReference) -> Seq<ContentReference> {
    match r.subcontent_references {
        Some(v) => v@,
        None => Seq::empty(),
    }
}

/// The nesting depth of a reference node: zero for a leaf, otherwise one
/// more than the depth of its first child. Later siblings do not count.
pub open spec fn ref_level(r: ContentReference) -> nat
    decreases r,
{
    match r.subcontent_references {
        Some(v) => {
            if v@.len() > 0 {
                1 + ref_level(v@[0])
            } else {
                0
            }
        },
        None => 0,
    }
}

/// The anchor target for a reference inside the file `xhtml`: the explicit
/// id when one was set, otherwise the sequential two-digit anchor `id` form
/// built from `number`.
pub open spec fn ref_src(r: ContentReference, xhtml: Seq<char>, number: nat) -> Seq<char> {
    match r.id {
        Some(id) => xhtml + "#"@ + id@,
        None => xhtml + "#id"@ + dec_pad2(number),
    }
}

impl Clone for ContentReference {
    /// A deep copy of the reference tree.
    fn clone(&self) -> (r: Self)
        decreases *self,
    {
        let subs = match &self.subcontent_references {
            Some(v) => Some(clone_reference_vec(v)),
            None => None,
        };
        let id = match &self.id {
            Some(s) => Some(s.clone()),
            None => None,
        };
        ContentReference { title: self.title.clone(), subcontent_references: subs, id }
    }
}

/// A deep copy of a vector of reference trees.
fn clone_reference_vec(v: &Vec<ContentReference>) -> (r: Vec<ContentReference>)
    decreases *v,
{
    let mut out: Vec<ContentReference> = Vec::new();
    let mut i: usize = 0;
    while i < v.len()
        invariant
            0 <= i <= v@.len(),
        decreases v@.len() - i,
    {
        out.push(v[i].clone());
        i = i + 1;
    }
    out
}

impl ContentReference {
    /// Creates a new reference with the mandatory display title.
    pub fn new(title: &str) -> (r: Self)
        ensures
            r.title@ == title@,
            r.subcontent_references is None,
            r.id is None,
    {
        Self { title: title.to_owned(), subcontent_references: None, id: None }
    }

    /// Sets the anchor id for this reference.
    pub fn id(self, name: &str) -> (r: Self)
        ensures
            r.title == self.title,
            r.subcontent_references == self.subcontent_references,
            r.id matches Some(id) && id@ == name@,
    {
        Self { id: Some(name.to_owned()), ..self }
    }

    /// Adds a single reference as a nested child.
    pub fn add_child(self, content_reference: ContentReference) -> (r: Self)
        ensures
            r.title == self.title,
            r.id == self.id,
            r.subcontent_references matches Some(v) && v@ == ref_children(self).push(
                content_reference,
            ),
    {
        let mut subs = match self.subcontent_references {
            Some(v) => v,
            None => Vec::new(),
        };
        subs.push(content_reference);
        Self { subcontent_references: Some(subs), title: self.title, id: self.id }
    }

    /// Adds a vector of references as nested children.
    pub fn add_children(self, content_references: Vec<ContentReference>) -> (r: Self)
        ensures
            r.title == self.title,
            r.id == self.id,
            r.subcontent_references matches Some(v) && v@ == ref_children(self)
                + content_references@,
    {
        let mut subs = match self.subcontent_references {
            Some(v) => v,
            None => Vec::new(),
        };
        let mut rest = content_references;
        subs.append(&mut rest);
        Self { subcontent_references: Some(subs), title: self.title, id: self.id }
    }

    /// The nesting depth of this reference: zero for a leaf, otherwise one
    /// more than the depth of its first child.
    pub fn level(&self) -> (r: usize)
        requires
            ref_level(*self) <= usize::MAX,
        ensures
            r == ref_level(*self),
        decreases *self,
    {
        match &self.subcontent_references {
            Some(v) => {
                if v.len() > 0 {
                    1 + v[0].level()
                } else {
                    0
                }
            },
            None => 0,
        }
    }

    /// The full anchor string this reference points at inside the file
    /// `xhtml`: the explicit id when set, otherwise a sequential anchor
    /// built from `number`.
    pub fn reference_name(&self, xhtml: &str, number: usize) -> (r: String)
        ensures
            r@ == ref_src(*self, xhtml@, number as nat),
    {
        let mut s = xhtml.to_owned();
        match &self.id {
            Some(id) => {
                s.append("#");
                s.append(id.as_str());
                proof {
                    assert(s@ =~= ref_src(*self, xhtml@, number as nat));
                }
            },
            None => {
                s.append("#id");
                let num = crate::numbering::dec_pad2_string(number as u64);
                s.append(num.as_str());
                proof {
                    assert(s@ =~= ref_src(*self, xhtml@, number as nat));
                }
            },
        }
        s
    }
}

} // verus!
