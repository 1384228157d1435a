//! The batched sequential strategy: one batch at a time, on the caller's
//! thread.
//!
//! Each batch is decoded, run through the engine under the sticky-fallback
//! policy, and its surviving frames are annotated, persisted and collected in
//! slot order before the next batch is touched.

use vstd::prelude::*;

use crate::batch_loader::{
    batch_plan, lemma_chunker_running_bound, lemma_plan_live_positions, BatchSourceLoader,
};
use crate::batch_utils::{infer_batch_step, FallbackState};
use crate::collab::{Annotator, ImageDecoder, ImageSink, InferenceEngine};
use crate::error::AppError;
use crate::infer_fn::{results_annotated_iff, results_ordered, results_within, InferResult};
use crate::loader::{lemma_source_frames_live, spec_source_frames, FrameData};
use crate::predict::PredictArgs;
use crate::progress::ProgressCounter;
use crate::source::{save_path_for, DirListing};

verus! {

/// Run one invocation batch by batch. Aborts only when the destination
/// directory cannot be prepared or a directory source does not exist; a
/// batch-level inference failure falls back to per-item inference (sticky
/// for the rest of the invocation), and every per-frame failure merely drops
/// that frame. On success the returned counter holds the exact frame total
/// and the number of frames that reached collection, and the retained list
/// (when retention was requested) is in strict frame order with an annotated
/// image exactly when annotation was on.
pub fn batch_sequential_infer<
    R,
    E: InferenceEngine<R>,
    A: Annotator<R>,
    K: ImageSink,
    D: ImageDecoder,
>(
    engine: &mut E,
    annotator: &A,
    sink: &mut K,
    decoder: &D,
    args: &PredictArgs,
    listing: &DirListing,
    return_results: &mut Option<Vec<InferResult<R>>>,
) -> (r: Result<ProgressCounter, AppError>)
    ensures
        match r {
            Result::Ok(p) => {
                &&& p.wf()
                &&& spec_source_frames(args.source, *listing) matches Option::Some(frames)
                    && p.spec_total() == frames.len()
                &&& p.spec_count() <= p.spec_total()
                &&& ((*final(return_results)) is Some <==> (*old(return_results)) is Some)
                &&& match *final(return_results) {
                    Option::Some(v) => {
                        &&& v@.len() == p.spec_count()
                        &&& results_ordered(v@)
                        &&& results_within(v@, p.spec_total())
                        &&& results_annotated_iff(v@, args.annotate)
                    },
                    Option::None => true,
                }
            },
            Result::Err(e) => {
                ||| (e is Io && args.save_dir is Some)
                ||| (e is ImageCollection && args.source is Directory && listing is NotFound)
            },
        },
        args.save_dir is None && !(args.source is Directory && listing is NotFound) ==> r is Ok,
{
    if let Option::Some(dir) = &args.save_dir {
        if !sink.prepare_dir(dir) {
            return Result::Err(AppError::Io(dir.clone()));
        }
    }
    let mut loader = match BatchSourceLoader::new(&args.source, args.batch, listing) {
        Result::Ok(l) => l,
        Result::Err(e) => {
            return Result::Err(e);
        },
    };
    let ghost frames0: Seq<FrameData> = choose|f: Seq<FrameData>|
        spec_source_frames(args.source, *listing) == Option::Some(f);
    let total_frames = loader.total_frames();
    let mut progress = ProgressCounter::new(total_frames);
    let retain = match return_results {
        Option::Some(_) => true,
        Option::None => false,
    };
    let mut collected: Option<Vec<InferResult<R>>> = if retain {
        Option::Some(Vec::new())
    } else {
        Option::None
    };
    let mut sticky = FallbackState::new();
    let ghost mut floor: int = 0;
    loop
        invariant
            loader.wf(),
            spec_source_frames(args.source, *listing) == Option::Some(frames0),
            loader.batches_seq() == batch_plan(frames0, loader.batch_size_spec()),
            loader.total_spec() == total_frames,
            total_frames == frames0.len(),
            progress.wf(),
            progress.spec_total() == total_frames,
            progress.spec_count() <= loader.produced_frames(),
            0 <= floor <= loader.consumed_batches() * loader.batch_size_spec(),
            retain <==> collected is Some,
            match collected {
                Option::Some(v) => {
                    &&& v@.len() == progress.spec_count()
                    &&& results_ordered(v@)
                    &&& results_within(v@, total_frames as int)
                    &&& results_annotated_iff(v@, args.annotate)
                    &&& forall|i: int|
                        0 <= i < v@.len() ==> (#[trigger] v@[i]).meta.frame_idx < floor
                },
                Option::None => true,
            },
        decreases loader.num_batches() - loader.consumed_batches(),
    {
        proof {
            lemma_chunker_running_bound(loader);
        }
        let ghost pre = loader;
        let (bimages, bmetas) = match loader.next(decoder) {
            Option::None => {
                break ;
            },
            Option::Some(x) => x,
        };
        proof {
            lemma_chunker_running_bound(loader);
        }
        let ghost b = pre.consumed_batches();
        let ghost bsz = pre.batch_size_spec();
        let ghost batch = pre.batches_seq()[b];
        let ghost base = b * bsz;
        let (outcomes, _batched_used) = infer_batch_step(engine, &mut sticky, &bimages);
        let mut bimages = bimages;
        let mut bmetas = bmetas;
        let mut outcomes = outcomes;
        let ghost metas0 = bmetas@;
        proof {
            assert(metas0.skip(0) =~= metas0);
        }
        let ghost postnext = loader;
        while bmetas.len() > 0
            invariant
                loader == postnext,
                loader.wf(),
                loader.total_spec() == total_frames,
                loader.batch_size_spec() == bsz,
                loader.consumed_batches() == b + 1,
                loader.batches_seq() == batch_plan(frames0, bsz),
                spec_source_frames(args.source, *listing) == Option::Some(frames0),
                total_frames == frames0.len(),
                batch == batch_plan(frames0, bsz)[b],
                0 <= b < batch_plan(frames0, bsz).len(),
                base == b * bsz,
                batch.len() == bsz,
                bimages@.len() == bmetas@.len(),
                outcomes@.len() == bmetas@.len(),
                bmetas@.len() <= metas0.len(),
                bmetas@ == metas0.skip(metas0.len() - bmetas@.len()),
                forall|j: int|
                    0 <= j < metas0.len() ==> base <= (#[trigger] metas0[j]).frame_idx < base
                        + batch.len(),
                forall|j1: int, j2: int|
                    0 <= j1 < j2 < metas0.len() ==> (#[trigger] metas0[j1]).frame_idx < (
                    #[trigger] metas0[j2]).frame_idx,
                forall|j: int|
                    0 <= j < metas0.len() ==> (#[trigger] batch[metas0[j].frame_idx
                        - base]).is_live(),
                forall|j: int|
                    0 <= j < metas0.len() ==> (#[trigger] metas0[j]).total_frames == total_frames,
                progress.wf(),
                progress.spec_total() == total_frames,
                progress.spec_count() + bmetas@.len() <= loader.produced_frames(),
                0 <= floor <= base + batch.len(),
                forall|j: int|
                    metas0.len() - bmetas@.len() <= j < metas0.len() ==> floor <= (
                    #[trigger] metas0[j]).frame_idx,
                retain <==> collected is Some,
                match collected {
                    Option::Some(v) => {
                        &&& v@.len() == progress.spec_count()
                        &&& results_ordered(v@)
                        &&& results_within(v@, total_frames as int)
                        &&& results_annotated_iff(v@, args.annotate)
                        &&& forall|i: int|
                            0 <= i < v@.len() ==> (#[trigger] v@[i]).meta.frame_idx < floor
                    },
                    Option::None => true,
                },
            decreases bmetas@.len(),
        {
            let ghost kk = metas0.len() - bmetas@.len();
            proof {
                assert(bmetas@ == metas0.skip(kk));
                assert(0 <= kk < metas0.len());
                assert(metas0.skip(kk).len() == metas0.len() - kk);
                assert(metas0.skip(kk).remove(0) =~= metas0.skip(kk + 1));
                assert(bmetas@[0] == metas0[kk]);
            }
            let image = bimages.remove(0);
            let meta = bmetas.remove(0);
            let outcome = outcomes.remove(0);
            proof {
                assert(meta == metas0[kk]);
            }
            let payload = match outcome {
                Option::Some(p) => p,
                Option::None => {
                    continue ;
                },
            };
            let annotated: Option<image::DynamicImage> = if args.annotate {
                match annotator.annotate(&image, &payload, &args.annotate_cfg) {
                    Option::Some(a) => Option::Some(a),
                    Option::None => {
                        continue ;
                    },
                }
            } else {
                Option::None
            };
            if let Option::Some(dir) = &args.save_dir {
                if let Option::Some(aimg) = &annotated {
                    let path = save_path_for(dir, &meta);
                    if !sink.save_image(aimg, &path) {
                        continue ;
                    }
                }
            }
            proof {
                lemma_chunker_running_bound(loader);
                lemma_source_frames_live(args.source, *listing);
                lemma_plan_live_positions(frames0, bsz);
                assert(batch_plan(frames0, bsz)[b][meta.frame_idx - base].is_live());
                assert(b * bsz + (meta.frame_idx - base) < frames0.len());
            }
            progress.inc();
            match &mut collected {
                Option::Some(v) => {
                    v.push(InferResult { result: payload, annotated, meta });
                },
                Option::None => {},
            }
            proof {
                floor = metas0[kk].frame_idx + 1;
            }
        }
        proof {
            assert((b + 1) * bsz == b * bsz + bsz) by (nonlinear_arith);
            floor = base + batch.len();
        }
    }
    proof {
        lemma_chunker_running_bound(loader);
    }
    *return_results = collected;
    Result::Ok(progress)
}

} // verus!
