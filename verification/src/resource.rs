//! Auxiliary resources carried into the archive: images, fonts, audio and
//! video, each known by the path it is read from.

use vstd::prelude::*;

verus! {

use vstd::string::StringExecFns;
use vstd::string::StrSliceExecFns;
use crate::numbering::last_index_of;

/// The image file types accepted for resources and covers, each mapping to
/// its media type.
#[derive(Debug, Clone, Copy, PartialEq, Eq, Structural)]
pub enum ImageType {
    /// JPEG, `image/jpeg`.
    Jpg,
    /// PNG, `image/png`.
    Png,
    /// GIF, `image/gif`.
    Gif,
    /// SVG, `image/svg+xml`.
    Svg,
}

/// The media type of an image type.
pub open spec fn image_media_type(t: ImageType) -> Seq<char> {
    match t {
        ImageType::Jpg => "image/jpeg"@,
        ImageType::Png => "image/png"@,
        ImageType::Gif => "image/gif"@,
        ImageType::Svg => "image/svg+xml"@,
    }
}

impl ImageType {
    /// The media type string of this image type.
    pub fn media_type(&self) -> (r: &str)
        ensures
            r@ == image_media_type(*self),
    {
        match self {
            ImageType::Jpg => "image/jpeg",
            ImageType::Png => "image/png",
            ImageType::Gif => "image/gif",
            ImageType::Svg => "image/svg+xml",
        }
    }
}

/// One external file to be packed into the archive, named by the path it
/// is read from. The bytes themselves are read by the caller and handed
/// to the packager alongside the model.
#[derive(Debug, Clone)]
pub enum Resource {
    /// An image, with its image type.
    Image(String, ImageType),
    /// A font, assumed OpenType.
    Font(String),
    /// An audio file, assumed MPEG audio.
    Audio(String),
    /// A video file, assumed MP4.
    Video(String),
}

/// The path a resource is read from.
pub open spec fn res_path(r: Resource) -> Seq<char> {
    match r {
        Resource::Image(p, _) => p@,
        Resource::Font(p) => p@,
        Resource::Audio(p) => p@,
        Resource::Video(p) => p@,
    }
}

/// The media type of a resource.
pub open spec fn res_media_type(r: Resource) -> Seq<char> {
    match r {
        Resource::Image(_, t) => image_media_type(t),
        Resource::Font(_) => "application/vnd.ms-opentype"@,
        Resource::Audio(_) => "audio/mpeg"@,
        Resource::Video(_) => "video/mp4"@,
    }
}

/// The start of the path segment that ends at `j`: just after the last
/// `/` before it, or the start of the path.
pub open spec fn seg_start(p: Seq<char>, j: int) -> int {
    match last_index_of(p.take(j), '/') {
        Some(i) => i + 1,
        None => 0,
    }
}

/// The final component of `p[..j]`, read as the standard library reads a
/// path: empty segments and `.` segments are normalised away; a path
/// whose final component is `..`, or which has no component at all,
/// holds no filename.
pub open spec fn filename_before(p: Seq<char>, j: int) -> Option<Seq<char>>
    decreases j,
    via filename_before_decreases
{
    if j <= 0 || j > p.len() {
        None
    } else {
        let i = seg_start(p, j);
        let seg = p.subrange(i, j);
        if seg.len() == 0 || seg == seq!['.'] {
            if i == 0 {
                None
            } else {
                filename_before(p, i - 1)
            }
        } else if seg == seq!['.', '.'] {
            None
        } else {
            Some(seg)
        }
    }
}

#[via_fn]
proof fn filename_before_decreases(p: Seq<char>, j: int) {
    if 0 < j <= p.len() {
        crate::numbering::lemma_last_index_of_range(p.take(j), '/');
    }
}

/// The filename held in a path: its final component, with empty and `.`
/// segments normalised away; nothing when the path is empty, ends in
/// `..`, or holds only separators.
pub open spec fn filename_of_path(p: Seq<char>) -> Option<Seq<char>> {
    filename_before(p, p.len() as int)
}

/// The filename of a resource, when its path holds one.
pub open spec fn res_filename(r: Resource) -> Option<Seq<char>> {
    filename_of_path(res_path(r))
}

/// The manifest `<item>` element of a resource whose filename is `f`.
pub open spec fn res_manifest_xml(r: Resource, f: Seq<char>) -> Seq<char> {
    "<item id=\""@ + f + "\" href=\""@ + f + "\" media-type=\""@ + res_media_type(r) + "\"/>"@
}

impl Resource {
    /// The media type string this resource carries in the manifest.
    pub fn media_type(&self) -> (r: &str)
        ensures
            r@ == res_media_type(*self),
    {
        match self {
            Resource::Image(_, t) => t.media_type(),
            Resource::Font(_) => "application/vnd.ms-opentype",
            Resource::Audio(_) => "audio/mpeg",
            Resource::Video(_) => "video/mp4",
        }
    }

    /// The path this resource is read from.
    pub fn path(&self) -> (r: &str)
        ensures
            r@ == res_path(*self),
    {
        match self {
            Resource::Image(p, _) => p.as_str(),
            Resource::Font(p) => p.as_str(),
            Resource::Audio(p) => p.as_str(),
            Resource::Video(p) => p.as_str(),
        }
    }

    /// The path this resource is read from, as an owned string.
    pub fn to_string(&self) -> (r: String)
        ensures
            r@ == res_path(*self),
    {
        self.path().to_owned()
    }

    /// The filename part of this resource's path: its final component,
    /// with empty and `.` segments normalised away. Fails with a
    /// filename-not-found error, carrying the path, when the path holds
    /// no filename.
    pub fn filename(&self) -> (r: Result<String, crate::Error>)
        ensures
            match res_filename(*self) {
                Some(f) => r matches Ok(s) && s@ == f,
                None => r matches Err(e) && e matches crate::Error::FilenameNotFound(p) && p@
                    == res_path(*self),
            },
    {
        let p = self.path();
        let len = p.unicode_len();
        let mut j: usize = len;
        while j > 0
            invariant
                0 <= j <= len == p@.len(),
                res_filename(*self) == filename_before(p@, j as int),
                p@ == res_path(*self),
            decreases j,
        {
            let prefix = p.substring_char(0, j);
            proof {
                assert(prefix@ =~= p@.take(j as int));
                crate::numbering::lemma_last_index_of_range(prefix@, '/');
            }
            let i: usize = match crate::numbering::find_last(prefix, '/') {
                Some(k) => k + 1,
                None => 0,
            };
            assert(i as int == seg_start(p@, j as int));
            let ghost seg = p@.subrange(i as int, j as int);
            if j - i == 0 || (j - i == 1 && p.get_char(i) == '.') {
                proof {
                    if j - i == 1 {
                        assert(seg =~= seq!['.']);
                    }
                }
                if i == 0 {
                    return Err(crate::Error::FilenameNotFound(self.to_string()));
                }
                j = i - 1;
            } else if j - i == 2 && p.get_char(i) == '.' && p.get_char(i + 1) == '.' {
                proof {
                    assert(seg =~= seq!['.', '.']);
                }
                return Err(crate::Error::FilenameNotFound(self.to_string()));
            } else {
                proof {
                    assert(seg.len() == j - i);
                    if seg == seq!['.'] {
                        assert(seg[0] == p@[i as int]);
                        assert(false);
                    }
                    if seg == seq!['.', '.'] {
                        assert(seg[0] == p@[i as int]);
                        assert(seg[1] == p@[i + 1]);
                        assert(false);
                    }
                }
                return Ok(p.substring_char(i, j).to_owned());
            }
        }
        Err(crate::Error::FilenameNotFound(self.to_string()))
    }

    /// The manifest `<item>` element for this resource, when its path
    /// holds a filename.
    pub fn as_manifest_xml(&self) -> (r: Option<String>)
        ensures
            match res_filename(*self) {
                Some(f) => r matches Some(s) && s@ == res_manifest_xml(*self, f),
                None => r is None,
            },
    {
        let filename = match self.filename() {
            Ok(f) => f,
            Err(_) => {
                return None;
            },
        };
        let mut s = String::from_str("<item id=\"");
        s.append(filename.as_str());
        s.append("\" href=\"");
        s.append(filename.as_str());
        s.append("\" media-type=\"");
        s.append(self.media_type());
        s.append("\"/>");
        proof {
            assert(s@ =~= res_manifest_xml(*self, res_filename(*self).unwrap()));
        }
        Some(s)
    }
}

} // verus!
