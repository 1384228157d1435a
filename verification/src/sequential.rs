//! The sequential strategy: one frame at a time, on the caller's thread.
//!
//! Each frame is decoded, inferred, optionally annotated, optionally
//! persisted, then collected, before the next frame is touched. A failure at
//! any per-frame step drops that frame alone; the invocation goes on.

use vstd::prelude::*;

use crate::collab::{Annotator, ImageDecoder, ImageSink, InferenceEngine};
use crate::error::AppError;
use crate::infer_fn::{results_annotated_iff, results_ordered, results_within, InferResult};
use crate::loader::{lemma_loader_yield_bound, spec_source_frames, SourceLoader};
use crate::predict::PredictArgs;
use crate::progress::ProgressCounter;
use crate::source::{save_path_for, DirListing};

verus! {

/// Run one invocation sequentially. Aborts only when the destination
/// directory cannot be prepared or a directory source does not exist; every
/// per-frame failure merely drops that frame. On success the returned
/// counter holds the exact frame total and the number of frames that reached
/// collection, and the retained list (when retention was requested) is in
/// strict frame order with an annotated image exactly when annotation was
/// on.
pub fn sequential_infer<R, E: InferenceEngine<R>, A: Annotator<R>, K: ImageSink, D: ImageDecoder>(
    engine: &mut E,
    annotator: &A,
    sink: &mut K,
    decoder: &D,
    args: &PredictArgs,
    listing: &DirListing,
    return_results: &mut Option<Vec<InferResult<R>>>,
) -> (r: Result<ProgressCounter, AppError>)
    ensures
        match r {
            Result::Ok(p) => {
                &&& p.wf()
                &&& spec_source_frames(args.source, *listing) matches Option::Some(frames)
                    && p.spec_total() == frames.len()
                &&& p.spec_count() <= p.spec_total()
                &&& ((*final(return_results)) is Some <==> (*old(return_results)) is Some)
                &&& match *final(return_results) {
                    Option::Some(v) => {
                        &&& v@.len() == p.spec_count()
                        &&& results_ordered(v@)
                        &&& results_within(v@, p.spec_total())
                        &&& results_annotated_iff(v@, args.annotate)
                    },
                    Option::None => true,
                }
            },
            Result::Err(e) => {
                ||| (e is Io && args.save_dir is Some)
                ||| (e is ImageCollection && args.source is Directory && listing is NotFound)
            },
        },
        args.save_dir is None && !(args.source is Directory && listing is NotFound) ==> r is Ok,
{
    if let Option::Some(dir) = &args.save_dir {
        if !sink.prepare_dir(dir) {
            return Result::Err(AppError::Io(dir.clone()));
        }
    }
    let mut loader = match SourceLoader::new(&args.source, listing) {
        Result::Ok(l) => l,
        Result::Err(e) => {
            return Result::Err(e);
        },
    };
    let total_frames = loader.len();
    let mut progress = ProgressCounter::new(total_frames);
    let retain = match return_results {
        Option::Some(_) => true,
        Option::None => false,
    };
    let mut collected: Option<Vec<InferResult<R>>> = if retain {
        Option::Some(Vec::new())
    } else {
        Option::None
    };
    loop
        invariant
            loader.wf(),
            spec_source_frames(args.source, *listing) == Option::Some(loader.frames_seq()),
            loader.frames_seq().len() == total_frames,
            progress.wf(),
            progress.spec_total() == total_frames,
            progress.spec_count() <= loader.yielded(),
            retain <==> collected is Some,
            match collected {
                Option::Some(v) => {
                    &&& v@.len() == progress.spec_count()
                    &&& results_ordered(v@)
                    &&& results_within(v@, total_frames as int)
                    &&& forall|i: int|
                        0 <= i < v@.len() ==> (#[trigger] v@[i]).meta.frame_idx
                            < loader.consumed()
                    &&& results_annotated_iff(v@, args.annotate)
                },
                Option::None => true,
            },
        decreases loader.frames_seq().len() - loader.consumed(),
    {
        proof {
            lemma_loader_yield_bound(loader);
        }
        match loader.next(decoder) {
            Option::None => {
                break ;
            },
            Option::Some((image, meta)) => {
                proof {
                    lemma_loader_yield_bound(loader);
                }
                let payload = match engine.predict_single(&image) {
                    Option::Some(rr) => rr,
                    Option::None => {
                        continue ;
                    },
                };
                let annotated: Option<image::DynamicImage> = if args.annotate {
                    match annotator.annotate(&image, &payload, &args.annotate_cfg) {
                        Option::Some(a) => Option::Some(a),
                        Option::None => {
                            continue ;
                        },
                    }
                } else {
                    Option::None
                };
                if let Option::Some(dir) = &args.save_dir {
                    if let Option::Some(aimg) = &annotated {
                        let path = save_path_for(dir, &meta);
                        if !sink.save_image(aimg, &path) {
                            continue ;
                        }
                    }
                }
                progress.inc();
                match &mut collected {
                    Option::Some(v) => {
                        v.push(InferResult { result: payload, annotated, meta });
                    },
                    Option::None => {},
                }
            },
        }
    }
    proof {
        lemma_loader_yield_bound(loader);
    }
    *return_results = collected;
    Result::Ok(progress)
}

} // verus!
