//! Invocation arguments and strategy selection.
//!
//! [`PredictArgs`] carries what the orchestration core reads of an
//! invocation; the engine-side settings (model path, thresholds, device) are
//! the engine collaborator's own configuration and never reach the core.

use vstd::prelude::*;

use crate::annotate::AnnotateConfigs;
use crate::collab::{Annotator, ImageDecoder, ImageSink, InferenceEngine};
use crate::error::AppError;
use crate::infer_fn::{
    auto_infer, results_annotated_iff, results_ordered, results_within, InferFn, InferResult,
};
use crate::loader::spec_source_frames;
use crate::pathname::{resolve_path, spec_resolved};
use crate::source::{clone_opt_string, clone_source, DirListing, Source};

verus! {

/// What one invocation of the pipeline is asked to do.
#[derive(Clone)]
pub struct PredictArgs {
    /// The input source.
    pub source: Source,
    /// Batch size for the batched strategies; an absent or zero value means
    /// one.
    pub batch: Option<usize>,
    /// Where annotated frames are persisted; nothing means no persistence.
    pub save_dir: Option<String>,
    /// The configured strategy; a single-image source overrides it.
    pub infer_fn: InferFn,
    /// Whether to annotate surviving frames.
    pub annotate: bool,
    /// What annotation should draw.
    pub annotate_cfg: AnnotateConfigs,
    /// Bounded capacity of the staged strategies' handoff; an absent value
    /// means eight.
    pub channel_capacity: Option<usize>,
    /// Whether to retain and return the per-frame results.
    pub return_result: bool,
    /// Whether to report each frame as it moves.
    pub verbose: bool,
}

impl Default for PredictArgs {
    /// No source, batches of four, no persistence, the batched staged
    /// strategy, no annotation, handoff capacity eight, no retention, quiet.
    fn default() -> (r: Self)
        ensures
            r.source is NoSource,
            r.batch == Option::Some(4usize),
            r.save_dir is None,
            r.infer_fn == InferFn::BatchChannelPipeline,
            !r.annotate,
            r.channel_capacity == Option::Some(8usize),
            !r.return_result,
            !r.verbose,
    {
        PredictArgs {
            source: Source::NoSource,
            batch: Option::Some(4),
            save_dir: Option::None,
            infer_fn: InferFn::default(),
            annotate: false,
            annotate_cfg: AnnotateConfigs::default(),
            channel_capacity: Option::Some(8),
            return_result: false,
            verbose: false,
        }
    }
}

/// The strategy an invocation runs: a single-image source always forces the
/// sequential strategy, whatever was configured; every other source runs the
/// configured one. Decided once per invocation, never revisited mid-run.
pub fn select_infer_fn(source: &Source, configured: &InferFn) -> (r: InferFn)
    ensures
        source.spec_is_image() ==> r == InferFn::Sequential,
        !source.spec_is_image() ==> r == *configured,
{
    if source.is_image() {
        InferFn::Sequential
    } else {
        *configured
    }
}

/// How a source looks once its path is resolved against a root: the variant
/// is kept; a single-image or directory path is joined under the root unless
/// absolute; every other payload is untouched.
pub open spec fn resolved_source(source: Source, root: Seq<char>, r: Source) -> bool {
    match (source, r) {
        (Source::ImagePath(p), Source::ImagePath(rp)) => rp@ == spec_resolved(root, p@),
        (Source::Directory(p), Source::Directory(rp)) => rp@ == spec_resolved(root, p@),
        (Source::ImagePath(_), _) => false,
        (Source::Directory(_), _) => false,
        (s0, r0) => r0 == s0,
    }
}

/// Resolve an invocation's relative paths against a project root: a
/// single-image or directory source and the destination directory are joined
/// under the root unless already absolute; every other field is untouched.
pub fn resolve_args_paths(args: PredictArgs, root: &String) -> (r: PredictArgs)
    ensures
        resolved_source(args.source, root@, r.source),
        match (args.save_dir, r.save_dir) {
            (Option::Some(d), Option::Some(rd)) => rd@ == spec_resolved(root@, d@),
            (Option::None, Option::None) => true,
            _ => false,
        },
        r.batch == args.batch,
        r.infer_fn == args.infer_fn,
        r.annotate == args.annotate,
        r.channel_capacity == args.channel_capacity,
        r.return_result == args.return_result,
        r.verbose == args.verbose,
{
    let mut args = args;
    args.source = match args.source {
        Source::ImagePath(p) => Source::ImagePath(resolve_path(root, &p)),
        Source::Directory(p) => Source::Directory(resolve_path(root, &p)),
        other => other,
    };
    args.save_dir = match args.save_dir {
        Option::Some(d) => Option::Some(resolve_path(root, &d)),
        Option::None => Option::None,
    };
    args
}

/// Run one full prediction invocation: select the strategy (a single-image
/// source forces the sequential one), run it, and hand back the retained
/// results exactly when retention was requested. Aborts only when the
/// destination directory cannot be prepared or a directory source does not
/// exist.
pub fn run_prediction<R, E: InferenceEngine<R>, A: Annotator<R>, K: ImageSink, D: ImageDecoder>(
    engine: &mut E,
    annotator: &A,
    sink: &mut K,
    decoder: &D,
    args: &PredictArgs,
    listing: &DirListing,
) -> (r: Result<Option<Vec<InferResult<R>>>, AppError>)
    ensures
        match r {
            Result::Ok(opt) => {
                &&& (opt is Some <==> args.return_result)
                &&& spec_source_frames(args.source, *listing) matches Option::Some(frames)
                    && match opt {
                    Option::Some(v) => {
                        &&& v@.len() <= frames.len()
                        &&& results_ordered(v@)
                        &&& results_within(v@, frames.len() as int)
                        &&& results_annotated_iff(v@, args.annotate)
                    },
                    Option::None => true,
                }
            },
            Result::Err(e) => {
                ||| (e is Io && args.save_dir is Some)
                ||| (e is ImageCollection && args.source is Directory && listing is NotFound)
            },
        },
        args.save_dir is None && !(args.source is Directory && listing is NotFound) ==> r is Ok,
{
    let infer_fn = select_infer_fn(&args.source, &args.infer_fn);
    let mut final_results: Option<Vec<InferResult<R>>> = if args.return_result {
        Option::Some(Vec::new())
    } else {
        Option::None
    };
    match auto_infer(
        engine,
        annotator,
        sink,
        decoder,
        &infer_fn,
        args,
        listing,
        &mut final_results,
    ) {
        Result::Ok(_progress) => Result::Ok(final_results),
        Result::Err(e) => Result::Err(e),
    }
}

/// Run a prediction over an already-loaded source, reusing the caller's
/// engine. Only in-memory sources are accepted: anything else is rejected
/// as a configuration error before any work starts. Strategy selection is
/// as in [`run_prediction`]: a single image runs sequentially, an image list
/// runs the configured strategy.
pub fn run_online_prediction<
    R,
    E: InferenceEngine<R>,
    A: Annotator<R>,
    K: ImageSink,
    D: ImageDecoder,
>(
    engine: &mut E,
    annotator: &A,
    sink: &mut K,
    decoder: &D,
    source: &Source,
    args: &PredictArgs,
) -> (r: Result<Option<Vec<InferResult<R>>>, AppError>)
    ensures
        match r {
            Result::Ok(opt) => {
                &&& source is Image || source is ImageVec
                &&& (opt is Some <==> args.return_result)
                &&& spec_source_frames(*source, DirListing::NotFound) matches Option::Some(frames)
                    && match opt {
                    Option::Some(v) => {
                        &&& v@.len() <= frames.len()
                        &&& results_ordered(v@)
                        &&& results_within(v@, frames.len() as int)
                        &&& results_annotated_iff(v@, args.annotate)
                    },
                    Option::None => true,
                }
            },
            Result::Err(e) => {
                ||| (e is Config && !(source is Image || source is ImageVec))
                ||| (e is Io && args.save_dir is Some)
            },
        },
        (source is Image || source is ImageVec) && args.save_dir is None ==> r is Ok,
{
    let accepted = match source {
        Source::Image(_) => true,
        Source::ImageVec(_) => true,
        _ => false,
    };
    if !accepted {
        return Result::Err(
            AppError::Config(
                String::from_str("Online prediction only supports an in-memory image or image list"),
            ),
        );
    }
    let run_args = PredictArgs {
        source: clone_source(source),
        batch: args.batch,
        save_dir: clone_opt_string(&args.save_dir),
        infer_fn: args.infer_fn,
        annotate: args.annotate,
        annotate_cfg: args.annotate_cfg,
        channel_capacity: args.channel_capacity,
        return_result: args.return_result,
        verbose: args.verbose,
    };
    let listing = DirListing::NotFound;
    let infer_fn = select_infer_fn(&run_args.source, &run_args.infer_fn);
    let mut final_results: Option<Vec<InferResult<R>>> = if run_args.return_result {
        Option::Some(Vec::new())
    } else {
        Option::None
    };
    match auto_infer(
        engine,
        annotator,
        sink,
        decoder,
        &infer_fn,
        &run_args,
        &listing,
        &mut final_results,
    ) {
        Result::Ok(_progress) => Result::Ok(final_results),
        Result::Err(e) => Result::Err(e),
    }
}

} // verus!
