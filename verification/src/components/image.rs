//! Images: where a source is loaded from, and the frame the image is
//! drawn in.

use vstd::prelude::*;
use crate::text::{chars_of, has_prefix, contains_seq, contains_str, starts_with_str, append_classes, joined_classes};

verus! {

/// How a source string is loaded.
#[derive(PartialEq, Eq, Structural, Clone, Copy, Debug)]
pub enum ImageSourceKind {
    /// An `http://` or `https://` URL.
    Uri,
    /// An absolute file path.
    Path,
    /// A path served by the asset source.
    Embedded,
}

/// The kind of `src`, given whether it is an absolute file path.
pub open spec fn source_kind(src: Seq<char>, absolute: bool) -> ImageSourceKind {
    if has_prefix(src, "http://"@) || has_prefix(src, "https://"@) {
        ImageSourceKind::Uri
    } else if absolute {
        ImageSourceKind::Path
    } else {
        ImageSourceKind::Embedded
    }
}

/// Trusted: `std::path::Path::is_absolute`; what counts as absolute depends
/// on the platform, so nothing is stated of the result.
#[verifier::external_body]
fn path_is_absolute(src: &str) -> bool {
    std::path::Path::new(src).is_absolute()
}

/// The kind of `src` when `absolute` tells whether it is an absolute path.
pub fn image_source_kind(src: &str, absolute: bool) -> (r: ImageSourceKind)
    ensures
        r == source_kind(src@, absolute),
{
    let cs = chars_of(src);
    if starts_with_str(&cs, "http://") || starts_with_str(&cs, "https://") {
        ImageSourceKind::Uri
    } else if absolute {
        ImageSourceKind::Path
    } else {
        ImageSourceKind::Embedded
    }
}

/// The kind of `src` on this platform: URLs are always `Uri`; other
/// sources are `Path` or `Embedded` as the platform's path rules decide.
pub fn classify_image_source(src: &str) -> (r: ImageSourceKind)
    ensures
        r == source_kind(src@, true) || r == source_kind(src@, false),
{
    let absolute = path_is_absolute(src);
    image_source_kind(src, absolute)
}

/// The frame an image is drawn in, from the classes it recognises.
pub struct ImageFrame {
    /// 200 px wide (else full width).
    pub width_200: bool,
    /// 100 px high (else full height).
    pub height_100: bool,
    /// Large rounded corners, clipping the image.
    pub rounded_lg: bool,
    pub shadow_md: bool,
}

/// An image element: its source and classes.
pub struct Image {
    src: String,
    classes: String,
}

impl Image {
    pub closed spec fn source(&self) -> Seq<char> {
        self.src@
    }

    pub closed spec fn classes(&self) -> Seq<char> {
        self.classes@
    }

    pub fn new(src: String) -> (r: Image)
        ensures
            r.source() == src@,
            r.classes() == Seq::<char>::empty(),
    {
        Image { src, classes: String::new() }
    }

    /// Appends utility classes to the image.
    pub fn class(self, classes: String) -> (r: Image)
        ensures
            r.source() == self.source(),
            r.classes() == joined_classes(self.classes(), classes@),
    {
        let joined = append_classes(self.classes.as_str(), classes.as_str());
        Image { src: self.src, classes: joined }
    }

    pub fn src(&self) -> (r: &String)
        ensures
            r@ == self.source(),
    {
        &self.src
    }

    /// The frame: `w-[200px]`, `h-[100px]`, `rounded-lg` and `shadow-md`
    /// anywhere in the classes.
    pub fn frame(&self) -> (r: ImageFrame)
        ensures
            r.width_200 == contains_seq(self.classes(), "w-[200px]"@),
            r.height_100 == contains_seq(self.classes(), "h-[100px]"@),
            r.rounded_lg == contains_seq(self.classes(), "rounded-lg"@),
            r.shadow_md == contains_seq(self.classes(), "shadow-md"@),
    {
        let cs = chars_of(self.classes.as_str());
        ImageFrame {
            width_200: contains_str(&cs, "w-[200px]"),
            height_100: contains_str(&cs, "h-[100px]"),
            rounded_lg: contains_str(&cs, "rounded-lg"),
            shadow_md: contains_str(&cs, "shadow-md"),
        }
    }

    /// How the image's source is loaded on this platform.
    pub fn source_kind(&self) -> (r: ImageSourceKind)
        ensures
            r == source_kind(self.source(), true) || r == source_kind(self.source(), false),
    {
        classify_image_source(self.src.as_str())
    }
}

/// Creates an [`Image`].
pub fn image(src: String) -> (r: Image)
    ensures
        r.source() == src@,
        r.classes() == Seq::<char>::empty(),
{
    Image::new(src)
}

} // verus!
