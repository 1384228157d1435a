//! The batched staged strategy: load, infer, annotate, persist and collect
//! as distinct stages with bounded handoff, one batch at a time.
//!
//! As with the per-frame staged strategy, one worker per stage over strictly
//! FIFO bounded channels preserves arrival order, so the pipeline computes
//! one input-output relation whatever the interleaving. The library
//! realizes it with a bounded look-ahead buffer of batches: the load stage
//! runs until `channel_capacity` batches are staged (the backpressure
//! bound), then each staged batch is inferred under the sticky-fallback
//! policy and its surviving frames move through the remaining stages in slot
//! order.

use vstd::prelude::*;

use crate::batch_loader::{
    batch_plan, lemma_chunker_running_bound, lemma_plan_live_positions, BatchSourceLoader,
};
use crate::batch_utils::{infer_batch_step, FallbackState};
use crate::collab::{Annotator, ImageDecoder, ImageSink, InferenceEngine};
use crate::error::AppError;
use crate::infer_fn::{results_annotated_iff, results_ordered, results_within, InferResult};
use crate::loader::{lemma_source_frames_live, spec_source_frames, FrameData};
use crate::predict::PredictArgs;
use crate::progress::ProgressCounter;
use crate::source::{save_path_for, DirListing, SourceMeta};

verus! {

/// How many frames a staged sequence of batches still holds.
pub open spec fn pending_frames(items: Seq<(Vec<image::DynamicImage>, Vec<SourceMeta>)>) -> int
    decreases items.len(),
{
    if items.len() == 0 {
        0
    } else {
        pending_frames(items.drop_last()) + items.last().1@.len()
    }
}

proof fn lemma_pending_drop_first(items: Seq<(Vec<image::DynamicImage>, Vec<SourceMeta>)>)
    requires
        items.len() > 0,
    ensures
        pending_frames(items) == items[0].1@.len() + pending_frames(items.skip(1)),
        pending_frames(items) >= 0 == pending_frames(Seq::<
            (Vec<image::DynamicImage>, Vec<SourceMeta>),
        >::empty()),
    decreases items.len(),
{
    if items.len() == 1 {
        assert(items.drop_last() =~= Seq::<(Vec<image::DynamicImage>, Vec<SourceMeta>)>::empty());
        assert(items.skip(1) =~= Seq::<(Vec<image::DynamicImage>, Vec<SourceMeta>)>::empty());
        assert(items.last() == items[0]);
    } else {
        lemma_pending_drop_first(items.drop_last());
        assert(items.skip(1).drop_last() =~= items.drop_last().skip(1));
        assert(items.drop_last()[0] == items[0]);
        assert(items.skip(1).last() == items.last());
    }
}

/// Run one invocation through the batched staged pipeline. The contract is
/// the batched sequential strategy's: the staging changes scheduling, not
/// what comes out.
pub fn batch_channel_pipeline_infer<
    R,
    E: InferenceEngine<R>,
    A: Annotator<R>,
    K: ImageSink,
    D: ImageDecoder,
>(
    engine: &mut E,
    annotator: &A,
    sink: &mut K,
    decoder: &D,
    args: &PredictArgs,
    listing: &DirListing,
    return_results: &mut Option<Vec<InferResult<R>>>,
) -> (r: Result<ProgressCounter, AppError>)
    ensures
        match r {
            Result::Ok(p) => {
                &&& p.wf()
                &&& spec_source_frames(args.source, *listing) matches Option::Some(frames)
                    && p.spec_total() == frames.len()
                &&& p.spec_count() <= p.spec_total()
                &&& ((*final(return_results)) is Some <==> (*old(return_results)) is Some)
                &&& match *final(return_results) {
                    Option::Some(v) => {
                        &&& v@.len() == p.spec_count()
                        &&& results_ordered(v@)
                        &&& results_within(v@, p.spec_total())
                        &&& results_annotated_iff(v@, args.annotate)
                    },
                    Option::None => true,
                }
            },
            Result::Err(e) => {
                ||| (e is Io && args.save_dir is Some)
                ||| (e is ImageCollection && args.source is Directory && listing is NotFound)
            },
        },
        args.save_dir is None && !(args.source is Directory && listing is NotFound) ==> r is Ok,
{
    if let Option::Some(dir) = &args.save_dir {
        if !sink.prepare_dir(dir) {
            return Result::Err(AppError::Io(dir.clone()));
        }
    }
    let cap = match args.channel_capacity {
        Option::Some(c) => if c >= 1 {
            c
        } else {
            1
        },
        Option::None => 8,
    };
    let mut loader = match BatchSourceLoader::new(&args.source, args.batch, listing) {
        Result::Ok(l) => l,
        Result::Err(e) => {
            return Result::Err(e);
        },
    };
    let ghost frames0: Seq<FrameData> = choose|f: Seq<FrameData>|
        spec_source_frames(args.source, *listing) == Option::Some(f);
    let ghost bsz = loader.batch_size_spec();
    let total_frames = loader.total_frames();
    let mut progress = ProgressCounter::new(total_frames);
    let retain = match return_results {
        Option::Some(_) => true,
        Option::None => false,
    };
    let mut collected: Option<Vec<InferResult<R>>> = if retain {
        Option::Some(Vec::new())
    } else {
        Option::None
    };
    let mut sticky = FallbackState::new();
    let mut exhausted = false;
    let ghost mut floor: int = 0;
    while !exhausted
        invariant
            cap >= 1,
            loader.wf(),
            spec_source_frames(args.source, *listing) == Option::Some(frames0),
            loader.batches_seq() == batch_plan(frames0, bsz),
            loader.batch_size_spec() == bsz,
            loader.total_spec() == total_frames,
            total_frames == frames0.len(),
            progress.wf(),
            progress.spec_total() == total_frames,
            progress.spec_count() <= loader.produced_frames(),
            0 <= floor <= loader.consumed_batches() * bsz,
            exhausted ==> loader.consumed_batches() == loader.num_batches(),
            retain <==> collected is Some,
            match collected {
                Option::Some(v) => {
                    &&& v@.len() == progress.spec_count()
                    &&& results_ordered(v@)
                    &&& results_within(v@, total_frames as int)
                    &&& results_annotated_iff(v@, args.annotate)
                    &&& forall|i: int|
                        0 <= i < v@.len() ==> (#[trigger] v@[i]).meta.frame_idx < floor
                },
                Option::None => true,
            },
        decreases loader.num_batches() - loader.consumed_batches() + (if exhausted {
            0int
        } else {
            1int
        }),
    {
        // Load stage: stage up to the capacity bound in batches.
        let ghost consumed_in = loader.consumed_batches();
        let mut loaded: Vec<(Vec<image::DynamicImage>, Vec<SourceMeta>)> = Vec::new();
        proof {
            assert(pending_frames(loaded@) == 0);
        }
        while loaded.len() < cap && !exhausted
            invariant
                cap >= 1,
                loader.wf(),
                spec_source_frames(args.source, *listing) == Option::Some(frames0),
                loader.batches_seq() == batch_plan(frames0, bsz),
                loader.batch_size_spec() == bsz,
                loader.total_spec() == total_frames,
                total_frames == frames0.len(),
                consumed_in + loaded@.len() <= loader.consumed_batches(),
                progress.wf(),
                progress.spec_total() == total_frames,
                progress.spec_count() + pending_frames(loaded@) <= loader.produced_frames(),
                0 <= floor <= loader.consumed_batches() * bsz,
                exhausted ==> loader.consumed_batches() == loader.num_batches(),
                forall|q: int|
                    0 <= q < loaded@.len() ==> (#[trigger] loaded@[q]).0@.len()
                        == loaded@[q].1@.len(),
                forall|q: int, j: int|
                    0 <= q < loaded@.len() && 0 <= j < loaded@[q].1@.len() ==> floor <= (
                    #[trigger] loaded@[q].1@[j]).frame_idx < total_frames,
                forall|q: int, j: int|
                    0 <= q < loaded@.len() && 0 <= j < loaded@[q].1@.len() ==> (
                    #[trigger] loaded@[q].1@[j]).total_frames == total_frames,
                forall|q: int, j1: int, j2: int|
                    0 <= q < loaded@.len() && 0 <= j1 < j2 < loaded@[q].1@.len() ==> (
                    #[trigger] loaded@[q].1@[j1]).frame_idx < (
                    #[trigger] loaded@[q].1@[j2]).frame_idx,
                forall|q1: int, q2: int, j1: int, j2: int|
                    0 <= q1 < q2 < loaded@.len() && 0 <= j1 < loaded@[q1].1@.len() && 0 <= j2
                        < loaded@[q2].1@.len() ==> (#[trigger] loaded@[q1].1@[j1]).frame_idx < (
                    #[trigger] loaded@[q2].1@[j2]).frame_idx,
                forall|q: int, j: int|
                    0 <= q < loaded@.len() && 0 <= j < loaded@[q].1@.len() ==> (
                    #[trigger] loaded@[q].1@[j]).frame_idx < loader.consumed_batches() * bsz,
                retain <==> collected is Some,
                match collected {
                    Option::Some(v) => {
                        &&& v@.len() == progress.spec_count()
                        &&& results_ordered(v@)
                        &&& results_within(v@, total_frames as int)
                        &&& results_annotated_iff(v@, args.annotate)
                        &&& forall|i: int|
                            0 <= i < v@.len() ==> (#[trigger] v@[i]).meta.frame_idx < floor
                    },
                    Option::None => true,
                },
            decreases loader.num_batches() - loader.consumed_batches() + (if exhausted {
                0int
            } else {
                1int
            }),
        {
            proof {
                lemma_chunker_running_bound(loader);
            }
            let ghost pre = loader;
            match loader.next(decoder) {
                Option::Some((bimages, bmetas)) => {
                    proof {
                        lemma_chunker_running_bound(loader);
                        lemma_source_frames_live(args.source, *listing);
                        lemma_plan_live_positions(frames0, bsz);
                        let b = pre.consumed_batches();
                        let base = b * bsz;
                        let batch = pre.batches_seq()[b];
                        assert forall|j: int| 0 <= j < bmetas@.len() implies (
                        #[trigger] bmetas@[j]).frame_idx < total_frames by {
                            assert(batch_plan(frames0, bsz)[b][bmetas@[j].frame_idx
                                - base].is_live());
                        }
                        assert((b + 1) * bsz == b * bsz + bsz) by (nonlinear_arith);
                        vstd::arithmetic::mul::lemma_mul_inequality(consumed_in, b, bsz);
                        assert(loaded@.push((bimages, bmetas)).drop_last() =~= loaded@);
                    }
                    loaded.push((bimages, bmetas));
                },
                Option::None => {
                    exhausted = true;
                },
            }
        }
        // Infer, annotate, persist and collect stages drain the staged
        // batches in arrival order.
        let mut loaded = loaded;
        let ghost loaded0 = loaded@;
        proof {
            assert(loaded0.skip(0) =~= loaded0);
        }
        while loaded.len() > 0
            invariant
                loader.wf(),
                spec_source_frames(args.source, *listing) == Option::Some(frames0),
                loader.batches_seq() == batch_plan(frames0, bsz),
                loader.batch_size_spec() == bsz,
                loader.total_spec() == total_frames,
                total_frames == frames0.len(),
                consumed_in <= loader.consumed_batches(),
                !exhausted ==> consumed_in < loader.consumed_batches(),
                exhausted ==> loader.consumed_batches() == loader.num_batches(),
                loaded@.len() <= loaded0.len(),
                loaded@ == loaded0.skip(loaded0.len() - loaded@.len()),
                progress.wf(),
                progress.spec_total() == total_frames,
                progress.spec_count() + pending_frames(loaded@) <= loader.produced_frames(),
                0 <= floor <= loader.consumed_batches() * bsz,
                forall|q: int|
                    0 <= q < loaded0.len() ==> (#[trigger] loaded0[q]).0@.len()
                        == loaded0[q].1@.len(),
                forall|q: int, j: int|
                    0 <= q < loaded0.len() && 0 <= j < loaded0[q].1@.len() ==> (
                    #[trigger] loaded0[q].1@[j]).frame_idx < total_frames,
                forall|q: int, j: int|
                    0 <= q < loaded0.len() && 0 <= j < loaded0[q].1@.len() ==> (
                    #[trigger] loaded0[q].1@[j]).total_frames == total_frames,
                forall|q: int, j1: int, j2: int|
                    0 <= q < loaded0.len() && 0 <= j1 < j2 < loaded0[q].1@.len() ==> (
                    #[trigger] loaded0[q].1@[j1]).frame_idx < (
                    #[trigger] loaded0[q].1@[j2]).frame_idx,
                forall|q1: int, q2: int, j1: int, j2: int|
                    0 <= q1 < q2 < loaded0.len() && 0 <= j1 < loaded0[q1].1@.len() && 0 <= j2
                        < loaded0[q2].1@.len() ==> (#[trigger] loaded0[q1].1@[j1]).frame_idx < (
                    #[trigger] loaded0[q2].1@[j2]).frame_idx,
                forall|q: int, j: int|
                    0 <= q < loaded0.len() && 0 <= j < loaded0[q].1@.len() ==> (
                    #[trigger] loaded0[q].1@[j]).frame_idx < loader.consumed_batches() * bsz,
                forall|q: int, j: int|
                    loaded0.len() - loaded@.len() <= q < loaded0.len() && 0 <= j
                        < loaded0[q].1@.len() ==> floor <= (#[trigger] loaded0[q].1@[j]).frame_idx,
                retain <==> collected is Some,
                match collected {
                    Option::Some(v) => {
                        &&& v@.len() == progress.spec_count()
                        &&& results_ordered(v@)
                        &&& results_within(v@, total_frames as int)
                        &&& results_annotated_iff(v@, args.annotate)
                        &&& forall|i: int|
                            0 <= i < v@.len() ==> (#[trigger] v@[i]).meta.frame_idx < floor
                    },
                    Option::None => true,
                },
            decreases loaded@.len(),
        {
            let ghost qq = loaded0.len() - loaded@.len();
            proof {
                assert(loaded@ == loaded0.skip(qq));
                assert(loaded0.skip(qq).remove(0) =~= loaded0.skip(qq + 1));
                assert(loaded@[0] == loaded0[qq]);
                lemma_pending_drop_first(loaded@);
            }
            let (bimages, bmetas) = loaded.remove(0);
            // Infer stage: the whole batch, under the sticky-fallback policy.
            let (outcomes, _batched_used) = infer_batch_step(engine, &mut sticky, &bimages);
            let mut bimages = bimages;
            let mut bmetas = bmetas;
            let mut outcomes = outcomes;
            let ghost metas0 = bmetas@;
            proof {
                assert(metas0.skip(0) =~= metas0);
                assert(metas0 == loaded0[qq].1@);
            }
            while bmetas.len() > 0
                invariant
                    loader.wf(),
                    spec_source_frames(args.source, *listing) == Option::Some(frames0),
                    loader.batches_seq() == batch_plan(frames0, bsz),
                    loader.batch_size_spec() == bsz,
                    loader.total_spec() == total_frames,
                    total_frames == frames0.len(),
                    consumed_in <= loader.consumed_batches(),
                    !exhausted ==> consumed_in < loader.consumed_batches(),
                    exhausted ==> loader.consumed_batches() == loader.num_batches(),
                    0 <= qq < loaded0.len(),
                    loaded@ == loaded0.skip(qq + 1),
                    metas0 == loaded0[qq].1@,
                    bimages@.len() == bmetas@.len(),
                    outcomes@.len() == bmetas@.len(),
                    bmetas@.len() <= metas0.len(),
                    bmetas@ == metas0.skip(metas0.len() - bmetas@.len()),
                    progress.wf(),
                    progress.spec_total() == total_frames,
                    progress.spec_count() + bmetas@.len() + pending_frames(loaded@)
                        <= loader.produced_frames(),
                    0 <= floor <= loader.consumed_batches() * bsz,
                    forall|q: int|
                        0 <= q < loaded0.len() ==> (#[trigger] loaded0[q]).0@.len()
                            == loaded0[q].1@.len(),
                    forall|q: int, j: int|
                        0 <= q < loaded0.len() && 0 <= j < loaded0[q].1@.len() ==> (
                        #[trigger] loaded0[q].1@[j]).frame_idx < total_frames,
                    forall|q: int, j: int|
                        0 <= q < loaded0.len() && 0 <= j < loaded0[q].1@.len() ==> (
                        #[trigger] loaded0[q].1@[j]).total_frames == total_frames,
                    forall|q: int, j1: int, j2: int|
                        0 <= q < loaded0.len() && 0 <= j1 < j2 < loaded0[q].1@.len() ==> (
                        #[trigger] loaded0[q].1@[j1]).frame_idx < (
                        #[trigger] loaded0[q].1@[j2]).frame_idx,
                    forall|q1: int, q2: int, j1: int, j2: int|
                        0 <= q1 < q2 < loaded0.len() && 0 <= j1 < loaded0[q1].1@.len() && 0 <= j2
                            < loaded0[q2].1@.len() ==> (#[trigger] loaded0[q1].1@[j1]).frame_idx
                            < (#[trigger] loaded0[q2].1@[j2]).frame_idx,
                    forall|q: int, j: int|
                        0 <= q < loaded0.len() && 0 <= j < loaded0[q].1@.len() ==> (
                        #[trigger] loaded0[q].1@[j]).frame_idx < loader.consumed_batches() * bsz,
                    forall|j: int|
                        metas0.len() - bmetas@.len() <= j < metas0.len() ==> floor <= (
                        #[trigger] metas0[j]).frame_idx,
                    forall|q: int, j: int|
                        qq + 1 <= q < loaded0.len() && 0 <= j < loaded0[q].1@.len() ==> floor <= (
                        #[trigger] loaded0[q].1@[j]).frame_idx,
                    retain <==> collected is Some,
                    match collected {
                        Option::Some(v) => {
                            &&& v@.len() == progress.spec_count()
                            &&& results_ordered(v@)
                            &&& results_within(v@, total_frames as int)
                            &&& results_annotated_iff(v@, args.annotate)
                            &&& forall|i: int|
                                0 <= i < v@.len() ==> (#[trigger] v@[i]).meta.frame_idx < floor
                        },
                        Option::None => true,
                    },
                decreases bmetas@.len(),
            {
                let ghost kk = metas0.len() - bmetas@.len();
                proof {
                    assert(bmetas@ == metas0.skip(kk));
                    assert(metas0.skip(kk).remove(0) =~= metas0.skip(kk + 1));
                    assert(bmetas@[0] == metas0[kk]);
                }
                let image = bimages.remove(0);
                let meta = bmetas.remove(0);
                let outcome = outcomes.remove(0);
                proof {
                    assert(meta == metas0[kk]);
                }
                let payload = match outcome {
                    Option::Some(p) => p,
                    Option::None => {
                        continue ;
                    },
                };
                // Annotate stage.
                let annotated: Option<image::DynamicImage> = if args.annotate {
                    match annotator.annotate(&image, &payload, &args.annotate_cfg) {
                        Option::Some(a) => Option::Some(a),
                        Option::None => {
                            continue ;
                        },
                    }
                } else {
                    Option::None
                };
                // Persist stage.
                if let Option::Some(dir) = &args.save_dir {
                    if let Option::Some(aimg) = &annotated {
                        let path = save_path_for(dir, &meta);
                        if !sink.save_image(aimg, &path) {
                            continue ;
                        }
                    }
                }
                // Collect stage.
                proof {
                    lemma_chunker_running_bound(loader);
                    lemma_pending_nonneg(loaded@);
                }
                progress.inc();
                match &mut collected {
                    Option::Some(v) => {
                        v.push(InferResult { result: payload, annotated, meta });
                    },
                    Option::None => {},
                }
                proof {
                    floor = metas0[kk].frame_idx + 1;
                }
            }
        }
        proof {
            lemma_chunker_running_bound(loader);
        }
    }
    proof {
        lemma_chunker_running_bound(loader);
    }
    *return_results = collected;
    Result::Ok(progress)
}

proof fn lemma_pending_nonneg(items: Seq<(Vec<image::DynamicImage>, Vec<SourceMeta>)>)
    ensures
        pending_frames(items) >= 0,
    decreases items.len(),
{
    if items.len() > 0 {
        lemma_pending_nonneg(items.drop_last());
    }
}

} // verus!
