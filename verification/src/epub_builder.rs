//! The aggregate document: metadata, stylesheet, cover, resources and the
//! content forest, assembled by a fluent builder and handed to the
//! packager.

use vstd::prelude::*;

verus! {

use vstd::string::StringExecFns;
use crate::content::{Content, level_spec, level_ref_spec};
use crate::metadata::Metadata;
use crate::numbering::dec_digits;
use crate::resource::{ImageType, Resource, res_filename, res_manifest_xml};

/// A complete document ready for packaging: the metadata record and the
/// optional stylesheet, cover image, resources and content forest.
#[derive(Debug, Clone)]
pub struct Epub {
    /// The descriptive metadata.
    pub metadata: Metadata,
    /// Optional stylesheet bytes, written as `OEBPS/style.css`.
    pub stylesheet: Option<Vec<u8>>,
    /// Optional cover image resource.
    pub cover_image: Option<Resource>,
    /// Optional ordered list of auxiliary resources.
    pub resources: Option<Vec<Resource>>,
    /// Optional ordered list of root content units.
    pub contents: Option<Vec<Content>>,
}

/// The root content units of a document, as a sequence.
pub open spec fn contents_seq(e: Epub) -> Seq<Content> {
    match e.contents {
        Some(v) => v@,
        None => Seq::empty(),
    }
}

/// The resources of a document, as a sequence.
pub open spec fn resources_seq(e: Epub) -> Seq<Resource> {
    match e.resources {
        Some(v) => v@,
        None => Seq::empty(),
    }
}

/// The largest value of `level_spec(cs[k]) + 1` over `k >= i`, or 1 when
/// none is left.
pub open spec fn max_level_from(cs: Seq<Content>, i: int) -> nat
    decreases cs.len() - i,
{
    if 0 <= i < cs.len() {
        let here = level_spec(cs[i]) + 1;
        let rest = max_level_from(cs, i + 1);
        if here >= rest {
            here
        } else {
            rest
        }
    } else {
        1
    }
}

/// The largest value of `level_ref_spec(cs[k]) + 1` over `k >= i`, or 1
/// when none is left.
pub open spec fn max_ref_level_from(cs: Seq<Content>, i: int) -> nat
    decreases cs.len() - i,
{
    if 0 <= i < cs.len() {
        let here = level_ref_spec(cs[i]) + 1;
        let rest = max_ref_level_from(cs, i + 1);
        if here >= rest {
            here
        } else {
            rest
        }
    } else {
        1
    }
}

/// The navigation depth of a whole document: zero without contents,
/// otherwise the larger of the deepest first-child content chain and the
/// deepest combined reference chain, each counted from 1 at the roots.
pub open spec fn doc_level(e: Epub) -> nat {
    match e.contents {
        Some(v) => {
            let a = max_level_from(v@, 0);
            let b = max_ref_level_from(v@, 0);
            if a >= b {
                a
            } else {
                b
            }
        },
        None => 0,
    }
}

/// The `dtb:depth` metadata element of a document.
pub open spec fn level_toc_xml(e: Epub) -> Seq<char> {
    "<meta name=\"dtb:depth\" content=\""@ + dec_digits(doc_level(e)) + "\"/>"@
}

/// The cover `<meta>` element of a document whose cover filename is `f`.
pub open spec fn cover_meta_xml(f: Seq<char>) -> Seq<char> {
    "<meta name=\"cover\" content=\""@ + f + "\"/>"@
}

/// Every entry from `i` on is bounded by the running maximum.
proof fn lemma_max_level_bound(cs: Seq<Content>, i: int, k: int)
    requires
        0 <= i <= k < cs.len(),
    ensures
        level_spec(cs[k]) + 1 <= max_level_from(cs, i),
    decreases k - i,
{
    if i < k {
        lemma_max_level_bound(cs, i + 1, k);
    }
}

proof fn lemma_max_ref_level_bound(cs: Seq<Content>, i: int, k: int)
    requires
        0 <= i <= k < cs.len(),
    ensures
        level_ref_spec(cs[k]) + 1 <= max_ref_level_from(cs, i),
    decreases k - i,
{
    if i < k {
        lemma_max_ref_level_bound(cs, i + 1, k);
    }
}

impl Epub {
    /// A document holding the given metadata and nothing else.
    fn new(metadata: Metadata) -> (r: Epub)
        ensures
            r.metadata == metadata,
            r.stylesheet is None,
            r.cover_image is None,
            r.resources is None,
            r.contents is None,
    {
        Self { metadata, stylesheet: None, cover_image: None, resources: None, contents: None }
    }

    /// The navigation depth of this document: zero without contents,
    /// otherwise the larger of the deepest first-child content chain and
    /// the deepest combined reference chain.
    pub fn level(&self) -> (r: usize)
        requires
            doc_level(*self) <= usize::MAX,
        ensures
            r == doc_level(*self),
    {
        match &self.contents {
            Some(v) => {
                let ghost cs = v@;
                let mut a: usize = 1;
                let mut b: usize = 1;
                let mut i: usize = v.len();
                while i > 0
                    invariant
                        0 <= i <= cs.len(),
                        v@ == cs,
                        max_level_from(cs, 0) <= usize::MAX,
                        max_ref_level_from(cs, 0) <= usize::MAX,
                        a == max_level_from(cs, i as int),
                        b == max_ref_level_from(cs, i as int),
                    decreases i,
                {
                    proof {
                        lemma_max_level_bound(cs, 0, i - 1);
                        lemma_max_ref_level_bound(cs, 0, i - 1);
                    }
                    let la = v[i - 1].level() + 1;
                    if la > a {
                        a = la;
                    }
                    let lb = v[i - 1].level_reference_content() + 1;
                    if lb > b {
                        b = lb;
                    }
                    i = i - 1;
                }
                if a >= b {
                    a
                } else {
                    b
                }
            },
            None => 0,
        }
    }

    /// The `dtb:depth` metadata element for the navigation map.
    pub fn level_as_toc_xml(&self) -> (r: String)
        requires
            doc_level(*self) <= usize::MAX,
        ensures
            r@ == level_toc_xml(*self),
    {
        let mut s = String::from_str("<meta name=\"dtb:depth\" content=\"");
        let num = crate::numbering::dec_string(self.level() as u64);
        s.append(num.as_str());
        s.append("\"/>");
        proof {
            assert(s@ =~= level_toc_xml(*self));
        }
        s
    }

    /// The cover `<meta>` element of the package metadata, when a cover
    /// image with an extractable filename is set.
    pub fn cover_image_as_metadata_xml(&self) -> (r: Option<String>)
        ensures
            match self.cover_image {
                Some(c) => match res_filename(c) {
                    Some(f) => r matches Some(s) && s@ == cover_meta_xml(f),
                    None => r is None,
                },
                None => r is None,
            },
    {
        match &self.cover_image {
            Some(cover) => {
                match cover.filename() {
                    Ok(f) => {
                        let mut s = String::from_str("<meta name=\"cover\" content=\"");
                        s.append(f.as_str());
                        s.append("\"/>");
                        proof {
                            assert(s@ =~= cover_meta_xml(res_filename(self.cover_image->0).unwrap()));
                        }
                        Some(s)
                    },
                    Err(_) => None,
                }
            },
            None => None,
        }
    }

    /// The cover image's manifest `<item>` element, when a cover image
    /// with an extractable filename is set.
    pub fn cover_image_as_manifest_xml(&self) -> (r: Option<String>)
        ensures
            match self.cover_image {
                Some(c) => match res_filename(c) {
                    Some(f) => r matches Some(s) && s@ == res_manifest_xml(c, f),
                    None => r is None,
                },
                None => r is None,
            },
    {
        match &self.cover_image {
            Some(cover) => cover.as_manifest_xml(),
            None => None,
        }
    }
}

/// A fluent builder assembling a document for packaging.
#[derive(Debug)]
pub struct EpubBuilder(pub Epub);

impl EpubBuilder {
    /// Starts the builder with the mandatory metadata.
    pub fn new(metadata: Metadata) -> (r: Self)
        ensures
            r.0.metadata == metadata,
            r.0.stylesheet is None,
            r.0.cover_image is None,
            r.0.resources is None,
            r.0.contents is None,
    {
        Self(Epub::new(metadata))
    }

    /// Sets the raw stylesheet bytes.
    pub fn stylesheet(self, stylesheet: Vec<u8>) -> (r: Self)
        ensures
            r.0 == (Epub { stylesheet: Some(stylesheet), ..self.0 }),
    {
        let Self(mut e) = self;
        e.stylesheet = Some(stylesheet);
        Self(e)
    }

    /// Sets the cover image from the path it will be read from and its
    /// image type.
    pub fn cover_image(self, path: &str, image_type: ImageType) -> (r: Self)
        ensures
            r.0.cover_image matches Some(c) && c == Resource::Image(r.0.cover_image->0->Image_0, image_type)
                && r.0.cover_image->0->Image_0@ == path@,
            r.0 == (Epub { cover_image: r.0.cover_image, ..self.0 }),
    {
        let Self(mut e) = self;
        e.cover_image = Some(Resource::Image(path.to_owned(), image_type));
        Self(e)
    }

    /// Adds a single resource.
    pub fn add_resource(self, resource: Resource) -> (r: Self)
        ensures
            r.0.resources matches Some(v) && v@ == resources_seq(self.0).push(resource),
            r.0 == (Epub { resources: r.0.resources, ..self.0 }),
    {
        let Self(mut e) = self;
        let mut rs = match e.resources {
            Some(v) => v,
            None => Vec::new(),
        };
        rs.push(resource);
        e.resources = Some(rs);
        Self(e)
    }

    /// Adds a collection of resources.
    pub fn add_resources(self, resources: Vec<Resource>) -> (r: Self)
        ensures
            r.0.resources matches Some(v) && v@ == resources_seq(self.0) + resources@,
            r.0 == (Epub { resources: r.0.resources, ..self.0 }),
    {
        let Self(mut e) = self;
        let mut rs = match e.resources {
            Some(v) => v,
            None => Vec::new(),
        };
        let mut rest = resources;
        rs.append(&mut rest);
        e.resources = Some(rs);
        Self(e)
    }

    /// Adds a single content unit to the book flow.
    pub fn add_content(self, content: Content) -> (r: Self)
        ensures
            r.0.contents matches Some(v) && v@ == contents_seq(self.0).push(content),
            r.0 == (Epub { contents: r.0.contents, ..self.0 }),
    {
        let Self(mut e) = self;
        let mut cs = match e.contents {
            Some(v) => v,
            None => Vec::new(),
        };
        cs.push(content);
        e.contents = Some(cs);
        Self(e)
    }

    /// Adds a collection of content units to the book flow.
    pub fn add_contents(self, contents: Vec<Content>) -> (r: Self)
        ensures
            r.0.contents matches Some(v) && v@ == contents_seq(self.0) + contents@,
            r.0 == (Epub { contents: r.0.contents, ..self.0 }),
    {
        let Self(mut e) = self;
        let mut cs = match e.contents {
            Some(v) => v,
            None => Vec::new(),
        };
        let mut rest = contents;
        cs.append(&mut rest);
        e.contents = Some(cs);
        Self(e)
    }
}

impl EpubBuilder {
    /// Packages the document into a finished archive, with the default
    /// stored (uncompressed) entries. `cover_data` and `resource_data`
    /// carry the outcome of reading the cover and each declared resource,
    /// in order; the finished archive bytes are handed back only when
    /// every step succeeded, so a caller that only writes an `Ok` result
    /// never emits a partial archive.
    pub fn create(
        self,
        cover_data: Option<Result<Vec<u8>, crate::Error>>,
        resource_data: Vec<Result<Vec<u8>, crate::Error>>,
    ) -> (r: Result<Vec<u8>, crate::Error>)
        requires
            cover_data is Some <==> self.0.cover_image is Some,
            resource_data@.len() == resources_seq(self.0).len(),
            crate::content::count_seq(contents_seq(self.0), 0) <= usize::MAX,
            crate::ncx::nav_count_seq(contents_seq(self.0), 0) <= usize::MAX,
            doc_level(self.0) <= usize::MAX,
        ensures
            r is Ok <==> crate::creator::plan_ok(self.0, cover_data, resource_data@)
                && crate::creator::zip_seq_ok(
                crate::creator::plan_views(
                    self.0,
                    crate::creator::cover_view(cover_data),
                    crate::creator::load_views(resource_data@),
                    crate::creator::ZipCompression::Stored,
                ),
            ),
            r matches Ok(b) ==> b@ == crate::creator::zip_bytes(
                crate::creator::plan_views(
                    self.0,
                    crate::creator::cover_view(cover_data),
                    crate::creator::load_views(resource_data@),
                    crate::creator::ZipCompression::Stored,
                ),
            ),
            crate::creator::has_load_err(self.0, cover_data, resource_data@) ==> (r matches Err(er)
                && crate::creator::load_err_ok(er, self.0, cover_data, resource_data@)),
            !crate::creator::has_load_err(self.0, cover_data, resource_data@)
                && crate::content::bodies_utf8_seq(contents_seq(self.0), 0)
                && crate::content::docs_ok_seq(contents_seq(self.0), 0, self.0.stylesheet is Some)
                && !crate::opf::ok_seq(contents_seq(self.0), 0) ==> (r matches Err(er)
                && er matches crate::Error::ContentFilename(f) && f@ == crate::opf::first_bad_seq(
                contents_seq(self.0),
                0,
            )),
    {
        let compression = crate::creator::ZipCompression::default();
        proof {
            assert(compression == crate::creator::ZipCompression::Stored);
        }
        self.create_with_compression(cover_data, resource_data, compression)
    }

    /// Packages the document into a finished archive under the given
    /// compression choice; the mimetype entry is stored regardless.
    pub fn create_with_compression(
        self,
        cover_data: Option<Result<Vec<u8>, crate::Error>>,
        resource_data: Vec<Result<Vec<u8>, crate::Error>>,
        compression: crate::creator::ZipCompression,
    ) -> (r: Result<Vec<u8>, crate::Error>)
        requires
            cover_data is Some <==> self.0.cover_image is Some,
            resource_data@.len() == resources_seq(self.0).len(),
            crate::content::count_seq(contents_seq(self.0), 0) <= usize::MAX,
            crate::ncx::nav_count_seq(contents_seq(self.0), 0) <= usize::MAX,
            doc_level(self.0) <= usize::MAX,
        ensures
            r is Ok <==> crate::creator::plan_ok(self.0, cover_data, resource_data@)
                && crate::creator::zip_seq_ok(
                crate::creator::plan_views(
                    self.0,
                    crate::creator::cover_view(cover_data),
                    crate::creator::load_views(resource_data@),
                    compression,
                ),
            ),
            r matches Ok(b) ==> b@ == crate::creator::zip_bytes(
                crate::creator::plan_views(
                    self.0,
                    crate::creator::cover_view(cover_data),
                    crate::creator::load_views(resource_data@),
                    compression,
                ),
            ),
            crate::creator::has_load_err(self.0, cover_data, resource_data@) ==> (r matches Err(er)
                && crate::creator::load_err_ok(er, self.0, cover_data, resource_data@)),
            !crate::creator::has_load_err(self.0, cover_data, resource_data@)
                && crate::content::bodies_utf8_seq(contents_seq(self.0), 0)
                && crate::content::docs_ok_seq(contents_seq(self.0), 0, self.0.stylesheet is Some)
                && !crate::opf::ok_seq(contents_seq(self.0), 0) ==> (r matches Err(er)
                && er matches crate::Error::ContentFilename(f) && f@ == crate::opf::first_bad_seq(
                contents_seq(self.0),
                0,
            )),
    {
        crate::creator::EpubFile::new(self.0, compression).create(cover_data, resource_data)
    }
}

} // verus!
