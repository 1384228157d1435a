//! The fallback inferencer and its sticky failure latch.
//!
//! Batched inference is attempted only while the latch is clear. The first
//! batch-level failure — an error from the engine, or an answer that does not
//! hold one payload per image — sets the latch for the rest of the
//! invocation, and every batch from then on runs through per-item inference.
//! The latch is one-way: nothing in the library resets it.

use vstd::prelude::*;

use crate::collab::InferenceEngine;
use crate::pathname::{spec_file_name, spec_frame_label};
use crate::source::SourceMeta;

verus! {

/// The sticky failure latch of one invocation: initially clear, set the
/// first time a batched-inference call fails, never reset.
pub struct FallbackState {
    engaged: bool,
}

impl FallbackState {
    /// Whether the latch has been set.
    pub closed spec fn is_engaged(&self) -> bool {
        self.engaged
    }

    /// A fresh, clear latch for one invocation.
    pub fn new() -> (r: FallbackState)
        ensures
            !r.is_engaged(),
    {
        FallbackState { engaged: false }
    }

    /// Whether the latch has been set.
    pub fn engaged(&self) -> (r: bool)
        ensures
            r == self.is_engaged(),
    {
        self.engaged
    }

    fn engage(&mut self)
        ensures
            final(self).is_engaged(),
    {
        self.engaged = true;
    }
}

/// Per-item inference over one batch: one outcome per image, in input order,
/// an engine failure becoming an absent outcome for that image alone.
pub fn batch_infer_fallback<R, E: InferenceEngine<R>>(
    engine: &mut E,
    images: &Vec<image::DynamicImage>,
) -> (r: Vec<Option<R>>)
    ensures
        r@.len() == images@.len(),
{
    let mut outcomes: Vec<Option<R>> = Vec::new();
    let mut i: usize = 0;
    while i < images.len()
        invariant
            i <= images@.len(),
            outcomes@.len() == i,
        decreases images@.len() - i,
    {
        outcomes.push(engine.predict_single(&images[i]));
        i += 1;
    }
    outcomes
}

/// One batch through the engine, under the sticky-fallback policy: the
/// batched call is attempted exactly when the latch is clear; a batch-level
/// failure (an error, or an answer of the wrong length) sets the latch and
/// reruns the whole batch per item. Returns one outcome per image and
/// whether the batched answer was used. Once the latch is set it stays set:
/// `r.1` is true exactly when the latch is still clear afterwards, and only
/// ever when it was clear before.
pub fn infer_batch_step<R, E: InferenceEngine<R>>(
    engine: &mut E,
    state: &mut FallbackState,
    images: &Vec<image::DynamicImage>,
) -> (r: (Vec<Option<R>>, bool))
    ensures
        r.0@.len() == images@.len(),
        r.1 ==> !old(state).is_engaged(),
        old(state).is_engaged() ==> final(state).is_engaged(),
        r.1 <==> !final(state).is_engaged(),
{
    if !state.engaged() {
        match engine.predict_batch(images) {
            Option::Some(answers) => {
                if answers.len() == images.len() {
                    let mut answers = answers;
                    let ghost n = answers@.len();
                    let mut outcomes: Vec<Option<R>> = Vec::new();
                    while answers.len() > 0
                        invariant
                            outcomes@.len() + answers@.len() == n,
                        decreases answers@.len(),
                    {
                        outcomes.push(Option::Some(answers.remove(0)));
                    }
                    (outcomes, true)
                } else {
                    // The answer does not cover the batch: treated as a
                    // batch-level failure, conservatively.
                    state.engage();
                    (batch_infer_fallback(engine, images), false)
                }
            },
            Option::None => {
                state.engage();
                (batch_infer_fallback(engine, images), false)
            },
        }
    } else {
        (batch_infer_fallback(engine, images), false)
    }
}

/// What `get_batch_frame_names` builds for slot `i` of a batch of `n`
/// frames.
pub open spec fn spec_batch_frame_name(meta: SourceMeta, n: int, i: int) -> Seq<char> {
    match meta.source_path {
        Option::Some(p) => spec_file_name(p@),
        Option::None => spec_frame_label((meta.frame_idx * n + i) as nat),
    }
}

/// A display name for each frame of one batch: the file name where the frame
/// has a path, and a positional label otherwise.
pub fn get_batch_frame_names(batch_metas: &Vec<SourceMeta>) -> (r: Vec<String>)
    requires
        forall|j: int|
            0 <= j < batch_metas@.len() ==> (#[trigger] batch_metas@[j]).frame_idx
                * batch_metas@.len() + j <= usize::MAX,
    ensures
        r@.len() == batch_metas@.len(),
        forall|j: int|
            0 <= j < batch_metas@.len() ==> (#[trigger] r@[j])@ == spec_batch_frame_name(
                batch_metas@[j],
                batch_metas@.len() as int,
                j,
            ),
{
    let n = batch_metas.len();
    let mut names: Vec<String> = Vec::new();
    let mut i: usize = 0;
    while i < n
        invariant
            i <= n,
            n == batch_metas@.len(),
            names@.len() == i,
            forall|j: int|
                0 <= j < batch_metas@.len() ==> (#[trigger] batch_metas@[j]).frame_idx
                    * batch_metas@.len() + j <= usize::MAX,
            forall|j: int|
                0 <= j < i ==> (#[trigger] names@[j])@ == spec_batch_frame_name(
                    batch_metas@[j],
                    n as int,
                    j,
                ),
        decreases n - i,
    {
        let meta = &batch_metas[i];
        match &meta.source_path {
            Option::Some(p) => {
                names.push(crate::pathname::file_name_of(p.as_str()));
            },
            Option::None => {
                names.push(crate::pathname::frame_label(meta.frame_idx * n + i));
            },
        }
        i += 1;
    }
    names
}

} // verus!
