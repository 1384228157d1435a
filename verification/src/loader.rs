//! The source enumerator.
//!
//! [`SourceLoader`] turns a [`Source`] into an ordered sequence of frames,
//! decoding path-based frames one at a time so that at most one decoded image
//! is in flight. Its declared length is exact for in-memory sources and an
//! upper bound for path-based ones: a frame whose decode fails is skipped,
//! never surfaced.

use vstd::prelude::*;

use crate::collab::ImageDecoder;
use crate::error::AppError;
use crate::source::{filter_image_paths, image_paths_of, DirListing, Source, SourceMeta};
use crate::pathname::is_image_path;

verus! {

/// One not-yet-decoded unit of work: a path still to be opened, an image
/// already in memory, or a padding slot of the batch chunker.
pub enum FrameData {
    Path(String),
    Image(image::DynamicImage),
    Pad,
}

impl FrameData {
    /// Padding never leaves the batch chunker; everything else is a frame.
    pub open spec fn is_live(&self) -> bool {
        !(self is Pad)
    }
}

/// An identical copy of a frame slot.
pub fn clone_frame(f: &FrameData) -> (r: FrameData)
    ensures
        r == *f,
{
    match f {
        FrameData::Path(p) => FrameData::Path(p.clone()),
        FrameData::Image(img) => FrameData::Image(img.clone()),
        FrameData::Pad => FrameData::Pad,
    }
}

/// Each path as a frame still to be decoded.
pub open spec fn frames_of_paths(paths: Seq<String>) -> Seq<FrameData> {
    paths.map_values(|p: String| FrameData::Path(p))
}

/// Each image as an in-memory frame.
pub open spec fn frames_of_images(images: Seq<image::DynamicImage>) -> Seq<FrameData> {
    images.map_values(|img: image::DynamicImage| FrameData::Image(img))
}

/// The frames a source enumerates to, or nothing when enumeration must fail:
/// only a directory source whose directory does not exist fails. Path-based
/// sources are filtered to recognized image extensions here, once; an
/// unreadable directory, like a source holding no recognized image, yields no
/// frames.
pub open spec fn spec_source_frames(source: Source, listing: DirListing) -> Option<Seq<FrameData>> {
    match source {
        Source::NoSource => Option::Some(Seq::<FrameData>::empty()),
        Source::ImagePath(p) => Option::Some(
            if is_image_path(p@) {
                seq![FrameData::Path(p)]
            } else {
                Seq::<FrameData>::empty()
            },
        ),
        Source::Directory(_) => match listing {
            DirListing::Listed(files) => Option::Some(frames_of_paths(image_paths_of(files@))),
            DirListing::NotFound => Option::None,
            DirListing::Unreadable => Option::Some(Seq::<FrameData>::empty()),
        },
        Source::ImagePathVec(paths) => Option::Some(frames_of_paths(image_paths_of(paths@))),
        Source::Image(img) => Option::Some(seq![FrameData::Image(img)]),
        Source::ImageVec(images) => Option::Some(frames_of_images(images@)),
    }
}

/// Turn each path into a pending frame.
fn paths_to_frames(paths: Vec<String>) -> (r: Vec<FrameData>)
    ensures
        r@ == frames_of_paths(paths@),
{
    let mut r: Vec<FrameData> = Vec::new();
    let mut i: usize = 0;
    while i < paths.len()
        invariant
            i <= paths@.len(),
            r@ =~= frames_of_paths(paths@.take(i as int)),
        decreases paths@.len() - i,
    {
        r.push(FrameData::Path(paths[i].clone()));
        i += 1;
    }
    proof {
        assert(paths@.take(paths@.len() as int) =~= paths@);
    }
    r
}

/// Turn each in-memory image into a frame.
fn images_to_frames(images: &Vec<image::DynamicImage>) -> (r: Vec<FrameData>)
    ensures
        r@ == frames_of_images(images@),
{
    let mut r: Vec<FrameData> = Vec::new();
    let mut i: usize = 0;
    while i < images.len()
        invariant
            i <= images@.len(),
            r@ =~= frames_of_images(images@.take(i as int)),
        decreases images@.len() - i,
    {
        r.push(FrameData::Image(images[i].clone()));
        i += 1;
    }
    proof {
        assert(images@.take(images@.len() as int) =~= images@);
    }
    r
}

/// Materialize the pending frames of `source`, exactly as
/// [`spec_source_frames`] describes them. The only error is a directory
/// source whose directory does not exist.
pub fn build_frames(source: &Source, listing: &DirListing) -> (r: Result<Vec<FrameData>, AppError>)
    ensures
        match r {
            Result::Ok(frames) => spec_source_frames(*source, *listing) == Option::Some(frames@),
            Result::Err(e) => {
                &&& source is Directory
                &&& listing is NotFound
                &&& e is ImageCollection
            },
        },
{
    match source {
        Source::NoSource => Result::Ok(Vec::new()),
        Source::ImagePath(p) => {
            if crate::pathname::is_image_file(p) {
                let mut v: Vec<FrameData> = Vec::new();
                v.push(FrameData::Path(p.clone()));
                proof {
                    assert(v@ =~= seq![FrameData::Path(*p)]);
                }
                Result::Ok(v)
            } else {
                Result::Ok(Vec::new())
            }
        },
        Source::Directory(d) => match listing {
            DirListing::Listed(files) => Result::Ok(paths_to_frames(filter_image_paths(files))),
            DirListing::NotFound => Result::Err(AppError::ImageCollection(d.clone())),
            DirListing::Unreadable => Result::Ok(Vec::new()),
        },
        Source::ImagePathVec(paths) => Result::Ok(paths_to_frames(filter_image_paths(paths))),
        Source::Image(img) => {
            let mut v: Vec<FrameData> = Vec::new();
            v.push(FrameData::Image(img.clone()));
            proof {
                assert(v@ =~= seq![FrameData::Image(*img)]);
            }
            Result::Ok(v)
        },
        Source::ImageVec(images) => Result::Ok(images_to_frames(images)),
    }
}

/// A lazily decoding enumerator over the frames of one source.
pub struct SourceLoader {
    current_idx: usize,
    frames: Vec<FrameData>,
    len: usize,
    /// How many frames were passed over because their decode failed.
    skipped: Ghost<nat>,
}

impl SourceLoader {
    /// The pending frames, in order.
    pub closed spec fn frames_seq(&self) -> Seq<FrameData> {
        self.frames@
    }

    /// How many frames have been consumed (yielded or skipped).
    pub closed spec fn consumed(&self) -> int {
        self.current_idx as int
    }

    /// How many frames were passed over because their decode failed.
    pub closed spec fn skipped_frames(&self) -> int {
        self.skipped@ as int
    }

    /// How many frames this loader has yielded.
    pub open spec fn yielded(&self) -> int {
        self.consumed() - self.skipped_frames()
    }

    /// The loader's invariant: the cursor and the skip count stay within the
    /// frame sequence, and padding never occurs (only the batch chunker makes
    /// padding slots).
    pub closed spec fn wf(&self) -> bool {
        &&& self.len == self.frames@.len()
        &&& self.current_idx <= self.len
        &&& self.skipped@ <= self.current_idx
        &&& forall|k: int| 0 <= k < self.frames@.len() ==> (#[trigger] self.frames@[k]).is_live()
    }

    /// Enumerate `source`. The only error is a directory source whose
    /// directory does not exist; any other trouble yields a shorter (possibly
    /// empty) sequence instead.
    pub fn new(source: &Source, listing: &DirListing) -> (r: Result<SourceLoader, AppError>)
        ensures
            match r {
                Result::Ok(loader) => {
                    &&& loader.wf()
                    &&& loader.consumed() == 0
                    &&& loader.skipped_frames() == 0
                    &&& spec_source_frames(*source, *listing) == Option::Some(loader.frames_seq())
                },
                Result::Err(e) => {
                    &&& source is Directory
                    &&& listing is NotFound
                    &&& e is ImageCollection
                },
            },
    {
        let frames = match build_frames(source, listing) {
            Result::Ok(frames) => frames,
            Result::Err(e) => {
                return Result::Err(e);
            },
        };
        let len = frames.len();
        proof {
            lemma_source_frames_live(*source, *listing);
        }
        Result::Ok(SourceLoader { current_idx: 0, frames, len, skipped: Ghost(0) })
    }

    /// The exact number of pending frames: what iteration yields when every
    /// decode succeeds, and an upper bound on it otherwise.
    pub fn len(&self) -> (r: usize)
        requires
            self.wf(),
        ensures
            r == self.frames_seq().len(),
    {
        self.len
    }

    /// The next frame and its metadata, decoding lazily. A pending frame
    /// whose decode fails is skipped, and the search goes on; in-memory
    /// frames always yield. `None` means the sequence is exhausted.
    pub fn next<D: ImageDecoder>(&mut self, decoder: &D) -> (r: Option<
        (image::DynamicImage, SourceMeta),
    >)
        requires
            old(self).wf(),
        ensures
            final(self).wf(),
            final(self).frames_seq() == old(self).frames_seq(),
            match r {
                Option::Some((image, meta)) => {
                    &&& old(self).consumed() <= meta.frame_idx < old(self).frames_seq().len()
                    &&& final(self).consumed() == meta.frame_idx + 1
                    &&& final(self).yielded() == old(self).yielded() + 1
                    &&& final(self).skipped_frames() >= old(self).skipped_frames()
                    &&& meta.total_frames == old(self).frames_seq().len()
                    &&& match old(self).frames_seq()[meta.frame_idx as int] {
                        FrameData::Path(p) => meta.source_path == Option::Some(p),
                        FrameData::Image(img) => meta.source_path is None && image == img,
                        FrameData::Pad => false,
                    }
                    &&& forall|k: int|
                        old(self).consumed() <= k < meta.frame_idx ==> old(self).frames_seq()[k]
                            is Path
                },
                Option::None => {
                    &&& final(self).consumed() == old(self).frames_seq().len()
                    &&& final(self).yielded() == old(self).yielded()
                    &&& forall|k: int|
                        old(self).consumed() <= k < old(self).frames_seq().len() ==> old(
                            self,
                        ).frames_seq()[k] is Path
                },
            },
    {
        loop
            invariant
                self.wf(),
                self.frames@ == old(self).frames@,
                self.len == old(self).len,
                old(self).current_idx <= self.current_idx,
                self.skipped@ - old(self).skipped@ == self.current_idx - old(self).current_idx,
                forall|k: int|
                    old(self).consumed() <= k < self.consumed() ==> self.frames@[k] is Path,
            decreases self.len - self.current_idx,
        {
            if self.current_idx >= self.len {
                return Option::None;
            }
            let idx = self.current_idx;
            match &self.frames[idx] {
                FrameData::Path(p) => {
                    match decoder.decode(p) {
                        Option::Some(image) => {
                            let meta = SourceMeta {
                                frame_idx: idx,
                                total_frames: self.len,
                                source_path: Option::Some(p.clone()),
                            };
                            self.current_idx = idx + 1;
                            return Option::Some((image, meta));
                        },
                        Option::None => {
                            self.current_idx = idx + 1;
                            self.skipped = Ghost(self.skipped@ + 1);
                        },
                    }
                },
                FrameData::Image(img) => {
                    let image = img.clone();
                    let meta = SourceMeta {
                        frame_idx: idx,
                        total_frames: self.len,
                        source_path: Option::None,
                    };
                    self.current_idx = idx + 1;
                    return Option::Some((image, meta));
                },
                FrameData::Pad => {
                    // wf excludes padding here; the match is exhaustive anyway.
                    self.current_idx = idx + 1;
                    self.skipped = Ghost(self.skipped@ + 1);
                },
            }
        }
    }
}

/// Whatever a source enumerates to, padding is not among it.
pub proof fn lemma_source_frames_live(source: Source, listing: DirListing)
    ensures
        match spec_source_frames(source, listing) {
            Option::Some(frames) => forall|k: int|
                0 <= k < frames.len() ==> (#[trigger] frames[k]).is_live(),
            Option::None => true,
        },
{
}

/// The number of frames yielded so far never exceeds the declared length,
/// and matches the number consumed exactly while no decode has failed.
pub proof fn lemma_loader_yield_bound(loader: SourceLoader)
    requires
        loader.wf(),
    ensures
        0 <= loader.skipped_frames() <= loader.consumed(),
        0 <= loader.consumed() <= loader.frames_seq().len(),
        loader.yielded() <= loader.frames_seq().len(),
        loader.skipped_frames() == 0 ==> loader.yielded() == loader.consumed(),
        loader.skipped_frames() == 0 && loader.consumed() == loader.frames_seq().len()
            ==> loader.yielded() == loader.frames_seq().len(),
{
}

} // verus!
