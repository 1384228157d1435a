//! The pipeline's external collaborators.
//!
//! The inference engine, the rasterizer, the image codec and the persistence
//! target are consumed as opaque services: the library never promises
//! anything about what they return, and every pipeline contract holds for
//! every possible answer. Each collaborator is a trait that the embedding
//! program (or a test) implements; the one the library can supply itself —
//! decoding through the `image` codec — is implemented here behind trusted
//! wrappers.

use vstd::prelude::*;

use crate::annotate::AnnotateConfigs;

verus! {

#[verifier::external_type_specification]
#[verifier::external_body]
pub struct ExDynamicImage(image::DynamicImage);

/// The inference engine: an opaque black box that succeeds or fails per
/// call. `R` is the engine's per-frame detection payload, which the library
/// carries but never interprets.
pub trait InferenceEngine<R>: Sized {
    /// Run inference on one image; nothing absent means the call failed.
    fn predict_single(&mut self, image: &image::DynamicImage) -> Option<R>;

    /// Run batched inference; a present answer is expected to hold one
    /// payload per image, and the pipeline treats any other shape as a
    /// batch-level failure.
    fn predict_batch(&mut self, images: &Vec<image::DynamicImage>) -> Option<Vec<R>>;
}

/// The rasterizer: paints one result onto one picture, or fails.
pub trait Annotator<R>: Sized {
    fn annotate(
        &self,
        image: &image::DynamicImage,
        result: &R,
        configs: &AnnotateConfigs,
    ) -> Option<image::DynamicImage>;
}

/// The persistence target for annotated frames.
pub trait ImageSink: Sized {
    /// Clear and recreate the destination directory; `false` is an
    /// unrecoverable failure that aborts the invocation.
    fn prepare_dir(&mut self, dir: &String) -> bool;

    /// Write one image under `path`; `false` drops that frame.
    fn save_image(&mut self, image: &image::DynamicImage, path: &String) -> bool;
}

/// The image codec: turns a path into a decoded image, or fails, dropping
/// that frame.
pub trait ImageDecoder: Sized {
    fn decode(&self, path: &String) -> Option<image::DynamicImage>;
}

/// The codec the library supplies: the `image` crate's decoder.
pub struct FileImageDecoder;

impl ImageDecoder for FileImageDecoder {
    fn decode(&self, path: &String) -> Option<image::DynamicImage> {
        open_image(path)
    }
}

/// Relies on `image::open`: reads and decodes the file at `path`. What comes
/// back depends on the disk, so nothing is promised of it.
#[verifier::external_body]
fn open_image(path: &String) -> Option<image::DynamicImage> {
    image::open(path.as_str()).ok()
}

/// Relies on the derived `Clone` impl of `image::DynamicImage`, which copies
/// the pixel buffer unchanged: the clone is an identical image.
pub assume_specification[ <image::DynamicImage as Clone>::clone ](
    image: &image::DynamicImage,
) -> (r: image::DynamicImage)
    ensures
        r == *image,
;

/// Width, height and channel count of an image.
#[derive(Debug, Clone, Copy, PartialEq, Eq, Structural)]
pub struct ImageInfo {
    pub width: u32,
    pub height: u32,
    pub channels: u32,
}

/// Relies on `image::DynamicImage::dimensions` and `ColorType::channel_count`
/// for the reported geometry.
#[verifier::external_body]
pub fn image_info(image: &image::DynamicImage) -> ImageInfo {
    let (width, height) = image::GenericImageView::dimensions(image);
    let channels = image.color().channel_count() as u32;
    ImageInfo { width, height, channels }
}

} // verus!
