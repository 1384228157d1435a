//! Strategy selection and per-frame results.
//!
//! An [`InferFn`] names one of the four interchangeable pipeline strategies.
//! An [`InferResult`] is what one surviving frame leaves behind when the
//! caller asked for result retention. The predicates here state what every
//! strategy guarantees of a retained result list: frame indices strictly
//! increasing (gaps only where a frame was dropped), every index within the
//! announced total, and an annotated image exactly when annotation was
//! requested.

use vstd::prelude::*;

use crate::collab::{Annotator, ImageDecoder, ImageSink, InferenceEngine};
use crate::error::AppError;
use crate::loader::spec_source_frames;
use crate::predict::PredictArgs;
use crate::progress::ProgressCounter;
use crate::source::{DirListing, SourceMeta};

verus! {

/// The four pipeline strategies.
#[derive(Debug, Clone, Copy, PartialEq, Eq, Structural)]
pub enum InferFn {
    /// One frame at a time, on the caller's thread.
    Sequential,
    /// One batch at a time, on the caller's thread.
    BatchSequential,
    /// Staged per-frame pipeline with bounded handoff.
    ChannelPipeline,
    /// Staged batched pipeline with bounded handoff.
    BatchChannelPipeline,
}

impl Default for InferFn {
    /// The batched staged pipeline is the default strategy.
    fn default() -> (r: Self)
        ensures
            r == InferFn::BatchChannelPipeline,
    {
        InferFn::BatchChannelPipeline
    }
}

/// Whether two strings hold the same characters.
fn str_eq(a: &str, b: &str) -> (r: bool)
    ensures
        r == (a@ == b@),
{
    let sa = String::from_str(a);
    let sb = String::from_str(b);
    sa == sb
}

/// The strategy a name denotes, if any: the four variant names, exactly.
pub fn infer_fn_from_str(s: &str) -> (r: Option<InferFn>)
    ensures
        r == spec_infer_fn_from_str(s@),
{
    if str_eq(s, "Sequential") {
        Option::Some(InferFn::Sequential)
    } else if str_eq(s, "BatchSequential") {
        Option::Some(InferFn::BatchSequential)
    } else if str_eq(s, "ChannelPipeline") {
        Option::Some(InferFn::ChannelPipeline)
    } else if str_eq(s, "BatchChannelPipeline") {
        Option::Some(InferFn::BatchChannelPipeline)
    } else {
        Option::None
    }
}

/// What `infer_fn_from_str` returns.
pub open spec fn spec_infer_fn_from_str(s: Seq<char>) -> Option<InferFn> {
    if s == "Sequential"@ {
        Option::Some(InferFn::Sequential)
    } else if s == "BatchSequential"@ {
        Option::Some(InferFn::BatchSequential)
    } else if s == "ChannelPipeline"@ {
        Option::Some(InferFn::ChannelPipeline)
    } else if s == "BatchChannelPipeline"@ {
        Option::Some(InferFn::BatchChannelPipeline)
    } else {
        Option::None
    }
}

/// What one surviving frame leaves behind: the engine's payload, the
/// annotated image when annotation was requested, and the frame's metadata.
pub struct InferResult<R> {
    /// The engine's detection payload, carried but never interpreted.
    pub result: R,
    /// The annotated image, present exactly when annotation was requested.
    pub annotated: Option<image::DynamicImage>,
    /// The frame's metadata.
    pub meta: SourceMeta,
}

/// Frame indices strictly increase along the list: end-to-end order is
/// preserved, and no frame appears twice.
pub open spec fn results_ordered<R>(v: Seq<InferResult<R>>) -> bool {
    forall|i: int, j: int|
        0 <= i < j < v.len() ==> (#[trigger] v[i]).meta.frame_idx < (#[trigger] v[j]).meta.frame_idx
}

/// Every retained frame lies within the announced total and carries it.
pub open spec fn results_within<R>(v: Seq<InferResult<R>>, total: int) -> bool {
    forall|i: int|
        0 <= i < v.len() ==> (#[trigger] v[i]).meta.frame_idx < total && v[i].meta.total_frames
            == total
}

/// A retained frame holds an annotated image exactly when annotation was
/// requested.
pub open spec fn results_annotated_iff<R>(v: Seq<InferResult<R>>, annotate: bool) -> bool {
    forall|i: int| 0 <= i < v.len() ==> ((#[trigger] v[i]).annotated is Some <==> annotate)
}

/// Run one invocation under the given strategy. Whatever the strategy, the
/// guarantees are the same: the counter announces the exact frame total and
/// counts the frames that reached collection; the invocation aborts only
/// when the destination directory cannot be prepared or a directory source
/// does not exist; and a retained result list is in strict frame order,
/// within the total, and annotated exactly when annotation was requested.
pub fn auto_infer<R, E: InferenceEngine<R>, A: Annotator<R>, K: ImageSink, D: ImageDecoder>(
    engine: &mut E,
    annotator: &A,
    sink: &mut K,
    decoder: &D,
    infer_fn: &InferFn,
    args: &PredictArgs,
    listing: &DirListing,
    return_results: &mut Option<Vec<InferResult<R>>>,
) -> (r: Result<ProgressCounter, AppError>)
    ensures
        match r {
            Result::Ok(p) => {
                &&& p.wf()
                &&& spec_source_frames(args.source, *listing) matches Option::Some(frames)
                    && p.spec_total() == frames.len()
                &&& p.spec_count() <= p.spec_total()
                &&& ((*final(return_results)) is Some <==> (*old(return_results)) is Some)
                &&& match *final(return_results) {
                    Option::Some(v) => {
                        &&& v@.len() == p.spec_count()
                        &&& results_ordered(v@)
                        &&& results_within(v@, p.spec_total())
                        &&& results_annotated_iff(v@, args.annotate)
                    },
                    Option::None => true,
                }
            },
            Result::Err(e) => {
                ||| (e is Io && args.save_dir is Some)
                ||| (e is ImageCollection && args.source is Directory && listing is NotFound)
            },
        },
        args.save_dir is None && !(args.source is Directory && listing is NotFound) ==> r is Ok,
{
    match infer_fn {
        InferFn::Sequential => crate::sequential::sequential_infer(
            engine,
            annotator,
            sink,
            decoder,
            args,
            listing,
            return_results,
        ),
        InferFn::BatchSequential => crate::batch_sequential::batch_sequential_infer(
            engine,
            annotator,
            sink,
            decoder,
            args,
            listing,
            return_results,
        ),
        InferFn::ChannelPipeline => crate::channel_ppl::channel_pipeline_infer(
            engine,
            annotator,
            sink,
            decoder,
            args,
            listing,
            return_results,
        ),
        InferFn::BatchChannelPipeline => crate::batch_channel_ppl::batch_channel_pipeline_infer(
            engine,
            annotator,
            sink,
            decoder,
            args,
            listing,
            return_results,
        ),
    }
}

} // verus!
