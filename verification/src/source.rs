//! Input sources and per-frame metadata.
//!
//! A [`Source`] is the closed set of input shapes the pipeline accepts; it
//! decides whether an invocation is single-frame or batchable. A
//! [`SourceMeta`] travels with every frame and carries its global position.
//! Directory contents are handed in as a [`DirListing`], produced by whoever
//! can read the file system.

use vstd::prelude::*;

use crate::collab::image_info;
use crate::pathname::{
    decimal_string, file_name_of, file_stem_of, frame_label, is_image_file, is_image_path,
    spec_decimal, spec_file_name, spec_file_stem, spec_frame_label,
};

verus! {

/// Metadata for one frame of work.
#[derive(Debug, Clone)]
pub struct SourceMeta {
    /// Current frame index (0-based, global across the invocation).
    pub frame_idx: usize,
    /// Total frames of the invocation (1 for single images).
    pub total_frames: usize,
    /// The originating path, when the frame came from one.
    pub source_path: Option<String>,
}

impl SourceMeta {
    /// What `frame_stem` returns.
    pub open spec fn spec_frame_stem(&self) -> Seq<char> {
        match self.source_path {
            Option::Some(p) => spec_file_stem(p@),
            Option::None => spec_frame_label(self.frame_idx as nat),
        }
    }

    /// What `frame_name` returns.
    pub open spec fn spec_frame_name(&self) -> Seq<char> {
        match self.source_path {
            Option::Some(p) => spec_file_name(p@),
            Option::None => spec_frame_label(self.frame_idx as nat),
        }
    }

    /// The stem of the frame's file name, or `frame_<index>` when the frame
    /// has no path.
    pub fn frame_stem(&self) -> (r: String)
        ensures
            r@ == self.spec_frame_stem(),
    {
        match &self.source_path {
            Option::Some(p) => file_stem_of(p.as_str()),
            Option::None => frame_label(self.frame_idx),
        }
    }

    /// The frame's file name, or `frame_<index>` when the frame has no path.
    pub fn frame_name(&self) -> (r: String)
        ensures
            r@ == self.spec_frame_name(),
    {
        match &self.source_path {
            Option::Some(p) => file_name_of(p.as_str()),
            Option::None => frame_label(self.frame_idx),
        }
    }
}

/// Where the frames of an invocation come from.
#[derive(Clone)]
pub enum Source {
    /// No source was provided (online prediction hands frames in directly).
    NoSource,
    /// Path to a single image file.
    ImagePath(String),
    /// Path to a directory of images.
    Directory(String),
    /// A list of image paths.
    ImagePathVec(Vec<String>),
    /// One image already in memory.
    Image(image::DynamicImage),
    /// A list of images already in memory.
    ImageVec(Vec<image::DynamicImage>),
}

impl Source {
    /// Whether no source was provided.
    pub open spec fn spec_is_none(&self) -> bool {
        self is NoSource
    }

    /// Whether the source can hold more than one frame.
    pub open spec fn spec_is_batch(&self) -> bool {
        self is Directory || self is ImagePathVec || self is ImageVec
    }

    /// Whether the source is a single image.
    pub open spec fn spec_is_image(&self) -> bool {
        self is ImagePath || self is Image
    }

    /// Returns true if no source was provided.
    pub fn is_none(&self) -> (r: bool)
        ensures
            r == self.spec_is_none(),
    {
        matches!(self, Source::NoSource)
    }

    /// Returns true if the source can hold more than one frame.
    pub fn is_batch(&self) -> (r: bool)
        ensures
            r == self.spec_is_batch(),
    {
        matches!(self, Source::Directory(_) | Source::ImagePathVec(_) | Source::ImageVec(_))
    }

    /// Returns true if the source is a single image.
    pub fn is_image(&self) -> (r: bool)
        ensures
            r == self.spec_is_image(),
    {
        matches!(self, Source::ImagePath(_) | Source::Image(_))
    }
}

impl Source {
    /// A one-line rendering of the source: the variant, with the path, the
    /// item count, or the image geometry.
    pub fn describe(&self) -> (r: String)
        ensures
            match self {
                Source::NoSource => r@ == "None"@,
                Source::ImagePath(p) => r@ == "ImagePath("@ + p@ + ")"@,
                Source::Directory(p) => r@ == "Directory("@ + p@ + ")"@,
                Source::ImagePathVec(v) => r@ == "ImagePathVec("@ + spec_decimal(v@.len())
                    + " items)"@,
                Source::Image(_) => exists|w: nat, h: nat|
                    r@ == "Image("@ + spec_decimal(w) + "x"@ + spec_decimal(h) + ")"@,
                Source::ImageVec(v) => r@ == "ImageVec("@ + spec_decimal(v@.len()) + " items)"@,
            },
    {
        match self {
            Source::NoSource => String::from_str("None"),
            Source::ImagePath(p) => {
                let mut r = String::from_str("ImagePath(");
                r.append(p.as_str());
                r.append(")");
                r
            },
            Source::Directory(p) => {
                let mut r = String::from_str("Directory(");
                r.append(p.as_str());
                r.append(")");
                r
            },
            Source::ImagePathVec(v) => {
                let count = decimal_string(v.len());
                let mut r = String::from_str("ImagePathVec(");
                r.append(count.as_str());
                r.append(" items)");
                r
            },
            Source::Image(img) => {
                let info = image_info(img);
                let w = decimal_string(info.width as usize);
                let h = decimal_string(info.height as usize);
                let mut r = String::from_str("Image(");
                r.append(w.as_str());
                r.append("x");
                r.append(h.as_str());
                r.append(")");
                proof {
                    assert(r@ == "Image("@ + spec_decimal(info.width as nat) + "x"@
                        + spec_decimal(info.height as nat) + ")"@);
                }
                r
            },
            Source::ImageVec(v) => {
                let count = decimal_string(v.len());
                let mut r = String::from_str("ImageVec(");
                r.append(count.as_str());
                r.append(" items)");
                r
            },
        }
    }
}

impl Default for Source {
    fn default() -> (r: Self)
        ensures
            r is NoSource,
    {
        Source::NoSource
    }
}

/// Classify a path as a directory source or a single-image source. The
/// caller supplies `is_dir`, the one fact only the file system knows.
pub fn source_from_path(path: String, is_dir: bool) -> (r: Source)
    ensures
        is_dir ==> r == Source::Directory(path),
        !is_dir ==> r == Source::ImagePath(path),
{
    if is_dir {
        Source::Directory(path)
    } else {
        Source::ImagePath(path)
    }
}

/// A copy of an optional path.
pub fn clone_opt_string(s: &Option<String>) -> (r: Option<String>)
    ensures
        r == *s,
{
    match s {
        Option::Some(x) => Option::Some(x.clone()),
        Option::None => Option::None,
    }
}

/// A copy of a path list with the same contents.
fn clone_string_vec(v: &Vec<String>) -> (r: Vec<String>)
    ensures
        r@ == v@,
{
    let mut r: Vec<String> = Vec::new();
    let mut i: usize = 0;
    while i < v.len()
        invariant
            i <= v@.len(),
            r@ =~= v@.take(i as int),
        decreases v@.len() - i,
    {
        r.push(v[i].clone());
        i += 1;
    }
    proof {
        assert(v@.take(v@.len() as int) =~= v@);
    }
    r
}

/// A copy of an image list with the same contents.
fn clone_image_vec(v: &Vec<image::DynamicImage>) -> (r: Vec<image::DynamicImage>)
    ensures
        r@ == v@,
{
    let mut r: Vec<image::DynamicImage> = Vec::new();
    let mut i: usize = 0;
    while i < v.len()
        invariant
            i <= v@.len(),
            r@ =~= v@.take(i as int),
        decreases v@.len() - i,
    {
        r.push(v[i].clone());
        i += 1;
    }
    proof {
        assert(v@.take(v@.len() as int) =~= v@);
    }
    r
}

/// A copy of a source that the pipeline cannot tell from the original: the
/// same variant, and payloads with the same contents.
pub fn clone_source(s: &Source) -> (r: Source)
    ensures
        r.spec_is_none() == s.spec_is_none(),
        r.spec_is_batch() == s.spec_is_batch(),
        r.spec_is_image() == s.spec_is_image(),
        r is Directory <==> s is Directory,
        forall|l: DirListing| crate::loader::spec_source_frames(r, l)
            == crate::loader::spec_source_frames(*s, l),
{
    match s {
        Source::NoSource => Source::NoSource,
        Source::ImagePath(p) => Source::ImagePath(p.clone()),
        Source::Directory(p) => Source::Directory(p.clone()),
        Source::ImagePathVec(v) => Source::ImagePathVec(clone_string_vec(v)),
        Source::Image(img) => Source::Image(img.clone()),
        Source::ImageVec(v) => Source::ImageVec(clone_image_vec(v)),
    }
}

/// What reading a source directory produced. Only the variant matters to the
/// library: a missing directory is the one enumeration error that aborts an
/// invocation, while an unreadable one merely yields no frames.
pub enum DirListing {
    /// The directory's files, in the order the file system reported them.
    Listed(Vec<String>),
    /// The directory does not exist.
    NotFound,
    /// The directory exists but could not be read.
    Unreadable,
}

/// Where one annotated frame is persisted: the frame's stem under the
/// destination directory, with the fixed image extension.
pub open spec fn spec_save_path(dir: Seq<char>, meta: SourceMeta) -> Seq<char> {
    dir + "/"@ + meta.spec_frame_stem() + ".png"@
}

/// Build the persistence path for one frame.
pub fn save_path_for(dir: &String, meta: &SourceMeta) -> (r: String)
    ensures
        r@ == spec_save_path(dir@, *meta),
{
    let stem = meta.frame_stem();
    let mut r = dir.clone();
    r.append("/");
    r.append(stem.as_str());
    r.append(".png");
    r
}

/// The predicate behind [`filter_image_paths`]: a path is kept when it names
/// a recognized image file.
pub open spec fn image_path_pred() -> spec_fn(String) -> bool {
    |p: String| is_image_path(p@)
}

/// The paths of `paths` that name recognized image files, in order.
pub open spec fn image_paths_of(paths: Seq<String>) -> Seq<String> {
    paths.filter(image_path_pred())
}

/// Keep only the paths that name recognized image files, in order.
pub fn filter_image_paths(paths: &Vec<String>) -> (r: Vec<String>)
    ensures
        r@ == image_paths_of(paths@),
{
    let mut r: Vec<String> = Vec::new();
    let mut i: usize = 0;
    proof {
        reveal(Seq::filter);
        assert(image_paths_of(paths@.take(0)) =~= Seq::<String>::empty());
    }
    while i < paths.len()
        invariant
            i <= paths@.len(),
            r@ == image_paths_of(paths@.take(i as int)),
        decreases paths@.len() - i,
    {
        proof {
            reveal(Seq::filter);
            assert(paths@.take(i + 1).drop_last() =~= paths@.take(i as int));
            assert(paths@.take(i + 1).last() == paths@[i as int]);
            if image_path_pred()(paths@[i as int]) {
                assert(image_paths_of(paths@.take(i + 1)) == image_paths_of(
                    paths@.take(i as int),
                ).push(paths@[i as int]));
            } else {
                assert(image_paths_of(paths@.take(i + 1)) == image_paths_of(paths@.take(i as int)));
            }
        }
        if is_image_file(&paths[i]) {
            r.push(paths[i].clone());
        }
        i += 1;
    }
    proof {
        assert(paths@.take(paths@.len() as int) =~= paths@);
    }
    r
}

} // verus!
