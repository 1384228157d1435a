//! The staged per-frame strategy: load, infer, annotate, persist and collect
//! as distinct stages with bounded handoff.
//!
//! The deployment this models runs one worker per stage over strictly FIFO,
//! bounded-capacity channels; with a single worker per stage the frames reach
//! every stage in arrival order, so the whole pipeline computes one
//! input-output relation whatever the interleaving. The library realizes
//! that relation with a bounded look-ahead buffer: the load stage runs until
//! its handoff buffer holds `channel_capacity` frames (the backpressure
//! bound), then the downstream stages drain it in order.

use vstd::prelude::*;

use crate::collab::{Annotator, ImageDecoder, ImageSink, InferenceEngine};
use crate::error::AppError;
use crate::infer_fn::{results_annotated_iff, results_ordered, results_within, InferResult};
use crate::loader::{lemma_loader_yield_bound, spec_source_frames, SourceLoader};
use crate::predict::PredictArgs;
use crate::progress::ProgressCounter;
use crate::source::{save_path_for, DirListing, SourceMeta};

verus! {

/// Run one invocation through the staged per-frame pipeline. The contract
/// is the sequential strategy's: the staging changes scheduling, not what
/// comes out.
pub fn channel_pipeline_infer<
    R,
    E: InferenceEngine<R>,
    A: Annotator<R>,
    K: ImageSink,
    D: ImageDecoder,
>(
    engine: &mut E,
    annotator: &A,
    sink: &mut K,
    decoder: &D,
    args: &PredictArgs,
    listing: &DirListing,
    return_results: &mut Option<Vec<InferResult<R>>>,
) -> (r: Result<ProgressCounter, AppError>)
    ensures
        match r {
            Result::Ok(p) => {
                &&& p.wf()
                &&& spec_source_frames(args.source, *listing) matches Option::Some(frames)
                    && p.spec_total() == frames.len()
                &&& p.spec_count() <= p.spec_total()
                &&& ((*final(return_results)) is Some <==> (*old(return_results)) is Some)
                &&& match *final(return_results) {
                    Option::Some(v) => {
                        &&& v@.len() == p.spec_count()
                        &&& results_ordered(v@)
                        &&& results_within(v@, p.spec_total())
                        &&& results_annotated_iff(v@, args.annotate)
                    },
                    Option::None => true,
                }
            },
            Result::Err(e) => {
                ||| (e is Io && args.save_dir is Some)
                ||| (e is ImageCollection && args.source is Directory && listing is NotFound)
            },
        },
        args.save_dir is None && !(args.source is Directory && listing is NotFound) ==> r is Ok,
{
    if let Option::Some(dir) = &args.save_dir {
        if !sink.prepare_dir(dir) {
            return Result::Err(AppError::Io(dir.clone()));
        }
    }
    let cap = match args.channel_capacity {
        Option::Some(c) => if c >= 1 {
            c
        } else {
            1
        },
        Option::None => 8,
    };
    let mut loader = match SourceLoader::new(&args.source, listing) {
        Result::Ok(l) => l,
        Result::Err(e) => {
            return Result::Err(e);
        },
    };
    let total_frames = loader.len();
    let mut progress = ProgressCounter::new(total_frames);
    let retain = match return_results {
        Option::Some(_) => true,
        Option::None => false,
    };
    let mut collected: Option<Vec<InferResult<R>>> = if retain {
        Option::Some(Vec::new())
    } else {
        Option::None
    };
    let mut exhausted = false;
    let ghost mut floor: int = 0;
    while !exhausted
        invariant
            cap >= 1,
            loader.wf(),
            spec_source_frames(args.source, *listing) == Option::Some(loader.frames_seq()),
            loader.frames_seq().len() == total_frames,
            progress.wf(),
            progress.spec_total() == total_frames,
            progress.spec_count() <= loader.yielded(),
            0 <= floor <= loader.consumed(),
            exhausted ==> loader.consumed() == total_frames,
            retain <==> collected is Some,
            match collected {
                Option::Some(v) => {
                    &&& v@.len() == progress.spec_count()
                    &&& results_ordered(v@)
                    &&& results_within(v@, total_frames as int)
                    &&& results_annotated_iff(v@, args.annotate)
                    &&& forall|i: int|
                        0 <= i < v@.len() ==> (#[trigger] v@[i]).meta.frame_idx < floor
                },
                Option::None => true,
            },
        decreases loader.frames_seq().len() - loader.consumed() + (if exhausted {
            0int
        } else {
            1int
        }),
    {
        // Load stage: fill the handoff buffer up to the capacity bound.
        let ghost consumed_in = loader.consumed();
        let mut staged: Vec<(image::DynamicImage, SourceMeta)> = Vec::new();
        while staged.len() < cap && !exhausted
            invariant
                cap >= 1,
                consumed_in + staged@.len() <= loader.consumed(),
                loader.wf(),
                spec_source_frames(args.source, *listing) == Option::Some(loader.frames_seq()),
                loader.frames_seq().len() == total_frames,
                staged@.len() <= cap,
                progress.wf(),
                progress.spec_total() == total_frames,
                progress.spec_count() + staged@.len() <= loader.yielded(),
                0 <= floor <= loader.consumed(),
                exhausted ==> loader.consumed() == total_frames,
                forall|j: int|
                    0 <= j < staged@.len() ==> floor <= (#[trigger] staged@[j]).1.frame_idx
                        < total_frames,
                forall|j: int|
                    0 <= j < staged@.len() ==> (#[trigger] staged@[j]).1.total_frames
                        == total_frames,
                forall|j1: int, j2: int|
                    0 <= j1 < j2 < staged@.len() ==> (#[trigger] staged@[j1]).1.frame_idx < (
                    #[trigger] staged@[j2]).1.frame_idx,
                forall|j: int|
                    0 <= j < staged@.len() ==> (#[trigger] staged@[j]).1.frame_idx
                        < loader.consumed(),
                retain <==> collected is Some,
                match collected {
                    Option::Some(v) => {
                        &&& v@.len() == progress.spec_count()
                        &&& results_ordered(v@)
                        &&& results_within(v@, total_frames as int)
                        &&& results_annotated_iff(v@, args.annotate)
                        &&& forall|i: int|
                            0 <= i < v@.len() ==> (#[trigger] v@[i]).meta.frame_idx < floor
                    },
                    Option::None => true,
                },
            decreases loader.frames_seq().len() - loader.consumed() + (if exhausted {
                0int
            } else {
                1int
            }),
        {
            proof {
                lemma_loader_yield_bound(loader);
            }
            match loader.next(decoder) {
                Option::Some(x) => {
                    staged.push(x);
                },
                Option::None => {
                    exhausted = true;
                },
            }
        }
        // Infer, annotate, persist and collect stages drain the buffer in
        // arrival order.
        let mut staged = staged;
        let ghost staged0 = staged@;
        proof {
            assert(staged0.skip(0) =~= staged0);
        }
        while staged.len() > 0
            invariant
                consumed_in <= loader.consumed(),
                !exhausted ==> consumed_in < loader.consumed(),
                loader.wf(),
                spec_source_frames(args.source, *listing) == Option::Some(loader.frames_seq()),
                loader.frames_seq().len() == total_frames,
                progress.wf(),
                progress.spec_total() == total_frames,
                progress.spec_count() + staged@.len() <= loader.yielded(),
                staged@.len() <= staged0.len(),
                staged@ == staged0.skip(staged0.len() - staged@.len()),
                exhausted ==> loader.consumed() == total_frames,
                forall|j: int|
                    0 <= j < staged0.len() ==> (#[trigger] staged0[j]).1.frame_idx < total_frames,
                forall|j: int|
                    0 <= j < staged0.len() ==> (#[trigger] staged0[j]).1.total_frames
                        == total_frames,
                forall|j1: int, j2: int|
                    0 <= j1 < j2 < staged0.len() ==> (#[trigger] staged0[j1]).1.frame_idx < (
                    #[trigger] staged0[j2]).1.frame_idx,
                forall|j: int|
                    0 <= j < staged0.len() ==> (#[trigger] staged0[j]).1.frame_idx
                        < loader.consumed(),
                0 <= floor <= loader.consumed(),
                forall|j: int|
                    staged0.len() - staged@.len() <= j < staged0.len() ==> floor <= (
                    #[trigger] staged0[j]).1.frame_idx,
                retain <==> collected is Some,
                match collected {
                    Option::Some(v) => {
                        &&& v@.len() == progress.spec_count()
                        &&& results_ordered(v@)
                        &&& results_within(v@, total_frames as int)
                        &&& results_annotated_iff(v@, args.annotate)
                        &&& forall|i: int|
                            0 <= i < v@.len() ==> (#[trigger] v@[i]).meta.frame_idx < floor
                    },
                    Option::None => true,
                },
            decreases staged@.len(),
        {
            let ghost kk = staged0.len() - staged@.len();
            proof {
                assert(staged@ == staged0.skip(kk));
                assert(staged0.skip(kk).remove(0) =~= staged0.skip(kk + 1));
                assert(staged@[0] == staged0[kk]);
            }
            let (image, meta) = staged.remove(0);
            proof {
                assert(meta == staged0[kk].1);
            }
            // Infer stage.
            let payload = match engine.predict_single(&image) {
                Option::Some(rr) => rr,
                Option::None => {
                    continue ;
                },
            };
            // Annotate stage.
            let annotated: Option<image::DynamicImage> = if args.annotate {
                match annotator.annotate(&image, &payload, &args.annotate_cfg) {
                    Option::Some(a) => Option::Some(a),
                    Option::None => {
                        continue ;
                    },
                }
            } else {
                Option::None
            };
            // Persist stage.
            if let Option::Some(dir) = &args.save_dir {
                if let Option::Some(aimg) = &annotated {
                    let path = save_path_for(dir, &meta);
                    if !sink.save_image(aimg, &path) {
                        continue ;
                    }
                }
            }
            // Collect stage.
            proof {
                lemma_loader_yield_bound(loader);
            }
            progress.inc();
            match &mut collected {
                Option::Some(v) => {
                    v.push(InferResult { result: payload, annotated, meta });
                },
                Option::None => {},
            }
            proof {
                floor = staged0[kk].1.frame_idx + 1;
            }
        }
        proof {
            lemma_loader_yield_bound(loader);
        }
    }
    proof {
        lemma_loader_yield_bound(loader);
    }
    *return_results = collected;
    Result::Ok(progress)
}

} // verus!
