use image::DynamicImage;
use yolo_pipeline::annotate::AnnotateConfigs;
use yolo_pipeline::batch_sequential::batch_sequential_infer;
use yolo_pipeline::batch_channel_ppl::batch_channel_pipeline_infer;
use yolo_pipeline::batch_utils::{batch_infer_fallback, infer_batch_step, FallbackState};
use yolo_pipeline::channel_ppl::channel_pipeline_infer;
use yolo_pipeline::collab::{Annotator, ImageDecoder, ImageSink, InferenceEngine};
use yolo_pipeline::error::AppError;
use yolo_pipeline::infer_fn::{InferFn, InferResult};
use yolo_pipeline::predict::{
    run_online_prediction, run_prediction, select_infer_fn, PredictArgs,
};
use yolo_pipeline::progress::ProgressCounter;
use yolo_pipeline::sequential::sequential_infer;
use yolo_pipeline::source::{DirListing, Source};

fn tiny_image() -> DynamicImage {
    DynamicImage::new_rgb8(2, 2)
}

fn names(n: usize) -> Vec<String> {
    (0..n).map(|i| format!("d/img{}.jpg", i)).collect()
}

/// A counting engine whose payload is the running call number; batched calls
/// can be told to fail.
struct StubEngine {
    single_calls: usize,
    batch_calls: usize,
    fail_batch: bool,
    short_batch_answer: bool,
}

impl StubEngine {
    fn working() -> StubEngine {
        StubEngine { single_calls: 0, batch_calls: 0, fail_batch: false, short_batch_answer: false }
    }

    fn batch_failing() -> StubEngine {
        StubEngine { single_calls: 0, batch_calls: 0, fail_batch: true, short_batch_answer: false }
    }
}

impl InferenceEngine<usize> for StubEngine {
    fn predict_single(&mut self, _image: &DynamicImage) -> Option<usize> {
        self.single_calls += 1;
        Some(1000 + self.single_calls)
    }

    fn predict_batch(&mut self, images: &Vec<DynamicImage>) -> Option<Vec<usize>> {
        self.batch_calls += 1;
        if self.fail_batch {
            None
        } else if self.short_batch_answer {
            Some(vec![0])
        } else {
            Some((0..images.len()).collect())
        }
    }
}

struct StubAnnotator;

impl Annotator<usize> for StubAnnotator {
    fn annotate(
        &self,
        image: &DynamicImage,
        _result: &usize,
        _configs: &AnnotateConfigs,
    ) -> Option<DynamicImage> {
        Some(image.clone())
    }
}

/// A sink that records what it was asked to do.
struct RecordingSink {
    prepared: Vec<String>,
    saved: Vec<String>,
    fail_prepare: bool,
    fail_save: bool,
}

impl RecordingSink {
    fn working() -> RecordingSink {
        RecordingSink { prepared: vec![], saved: vec![], fail_prepare: false, fail_save: false }
    }
}

impl ImageSink for RecordingSink {
    fn prepare_dir(&mut self, dir: &String) -> bool {
        self.prepared.push(dir.clone());
        !self.fail_prepare
    }

    fn save_image(&mut self, _image: &DynamicImage, path: &String) -> bool {
        self.saved.push(path.clone());
        !self.fail_save
    }
}

struct StubDecoder {
    fail_on: Vec<String>,
}

impl StubDecoder {
    fn working() -> StubDecoder {
        StubDecoder { fail_on: vec![] }
    }
}

impl ImageDecoder for StubDecoder {
    fn decode(&self, path: &String) -> Option<DynamicImage> {
        if self.fail_on.contains(path) {
            None
        } else {
            Some(tiny_image())
        }
    }
}

fn args_for(source: Source) -> PredictArgs {
    let mut args = PredictArgs::default();
    args.source = source;
    args.return_result = true;
    args
}

fn indices(results: &[InferResult<usize>]) -> Vec<usize> {
    results.iter().map(|r| r.meta.frame_idx).collect()
}

#[test]
fn single_image_sources_always_run_sequentially() {
    let img = Source::Image(tiny_image());
    let path = Source::ImagePath("a.jpg".to_string());
    for configured in [
        InferFn::Sequential,
        InferFn::BatchSequential,
        InferFn::ChannelPipeline,
        InferFn::BatchChannelPipeline,
    ] {
        assert_eq!(select_infer_fn(&img, &configured), InferFn::Sequential);
        assert_eq!(select_infer_fn(&path, &configured), InferFn::Sequential);
    }
    let many = Source::ImageVec(vec![tiny_image()]);
    assert_eq!(select_infer_fn(&many, &InferFn::ChannelPipeline), InferFn::ChannelPipeline);
    assert_eq!(select_infer_fn(&Source::NoSource, &InferFn::BatchSequential), InferFn::BatchSequential);
}

#[test]
fn strategy_names_round_trip() {
    assert_eq!(yolo_pipeline::infer_fn::infer_fn_from_str("Sequential"), Some(InferFn::Sequential));
    assert_eq!(yolo_pipeline::infer_fn::infer_fn_from_str("BatchSequential"), Some(InferFn::BatchSequential));
    assert_eq!(yolo_pipeline::infer_fn::infer_fn_from_str("ChannelPipeline"), Some(InferFn::ChannelPipeline));
    assert_eq!(yolo_pipeline::infer_fn::infer_fn_from_str("BatchChannelPipeline"), Some(InferFn::BatchChannelPipeline));
    assert_eq!(yolo_pipeline::infer_fn::infer_fn_from_str("sequential"), None);
    assert_eq!(yolo_pipeline::infer_fn::infer_fn_from_str(""), None);
    assert_eq!(InferFn::default(), InferFn::BatchChannelPipeline);
}

#[test]
fn progress_counts_one_per_frame() {
    let mut p = ProgressCounter::new(3);
    assert_eq!(p.count(), 0);
    assert_eq!(p.total(), 3);
    p.inc();
    p.inc();
    p.inc();
    assert_eq!(p.count(), 3);
}

#[test]
fn fallback_gives_one_outcome_per_image_in_order() {
    let mut engine = StubEngine::working();
    let images = vec![tiny_image(), tiny_image(), tiny_image()];
    let outcomes = batch_infer_fallback(&mut engine, &images);
    assert_eq!(outcomes, vec![Some(1001), Some(1002), Some(1003)]);
}

#[test]
fn sticky_latch_redirects_batches_after_one_failure() {
    let mut engine = StubEngine::batch_failing();
    let mut state = FallbackState::new();
    let images = vec![tiny_image(), tiny_image()];
    let (outcomes, used_batched) = infer_batch_step(&mut engine, &mut state, &images);
    assert_eq!(outcomes.len(), 2);
    assert!(!used_batched);
    assert!(state.engaged());
    // The next batch skips the batched attempt entirely.
    let (outcomes2, used2) = infer_batch_step(&mut engine, &mut state, &images);
    assert_eq!(outcomes2.len(), 2);
    assert!(!used2);
    assert!(state.engaged());
    assert_eq!(engine.batch_calls, 1);
    assert_eq!(engine.single_calls, 4);
}

#[test]
fn short_batched_answers_count_as_batch_failures() {
    let mut engine = StubEngine::working();
    engine.short_batch_answer = true;
    let mut state = FallbackState::new();
    let images = vec![tiny_image(), tiny_image(), tiny_image()];
    let (outcomes, used_batched) = infer_batch_step(&mut engine, &mut state, &images);
    assert_eq!(outcomes.len(), 3);
    assert!(!used_batched);
    assert!(state.engaged());
    assert_eq!(engine.batch_calls, 1);
    assert_eq!(engine.single_calls, 3);
}

#[test]
fn sequential_run_drops_only_the_corrupt_frame() {
    let files = names(5);
    let mut engine = StubEngine::working();
    let annotator = StubAnnotator;
    let mut sink = RecordingSink::working();
    let decoder = StubDecoder { fail_on: vec![files[2].clone()] };
    let args = args_for(Source::Directory("d".to_string()));
    let mut results = Some(Vec::new());
    let progress = sequential_infer(
        &mut engine,
        &annotator,
        &mut sink,
        &decoder,
        &args,
        &DirListing::Listed(files),
        &mut results,
    )
    .unwrap();
    let results = results.unwrap();
    assert_eq!(results.len(), 4);
    assert_eq!(progress.count(), 4);
    assert_eq!(progress.total(), 5);
    assert_eq!(indices(&results), vec![0, 1, 3, 4]);
    // Annotation was off: nothing annotated, nothing saved.
    assert!(results.iter().all(|r| r.annotated.is_none()));
    assert!(sink.saved.is_empty());
}

#[test]
fn batched_staged_run_annotates_and_persists_every_frame() {
    let mut engine = StubEngine::working();
    let annotator = StubAnnotator;
    let mut sink = RecordingSink::working();
    let decoder = StubDecoder::working();
    let mut args = args_for(Source::Directory("d".to_string()));
    args.batch = Some(4);
    args.infer_fn = InferFn::BatchChannelPipeline;
    args.annotate = true;
    args.save_dir = Some("out".to_string());
    let mut results = Some(Vec::new());
    let progress = batch_channel_pipeline_infer(
        &mut engine,
        &annotator,
        &mut sink,
        &decoder,
        &args,
        &DirListing::Listed(names(10)),
        &mut results,
    )
    .unwrap();
    let results = results.unwrap();
    assert_eq!(progress.count(), 10);
    assert_eq!(progress.total(), 10);
    assert_eq!(results.len(), 10);
    assert_eq!(indices(&results), (0..10).collect::<Vec<_>>());
    assert!(results.iter().all(|r| r.annotated.is_some()));
    assert_eq!(sink.prepared, vec!["out".to_string()]);
    assert_eq!(sink.saved.len(), 10);
    assert_eq!(sink.saved[0], "out/img0.png");
    assert_eq!(sink.saved[9], "out/img9.png");
    // The batched path was used throughout: 3 batches, no fallback.
    assert_eq!(engine.batch_calls, 3);
    assert_eq!(engine.single_calls, 0);
}

#[test]
fn first_batch_failure_falls_back_and_stays_fallen_back() {
    let mut engine = StubEngine::batch_failing();
    let annotator = StubAnnotator;
    let mut sink = RecordingSink::working();
    let decoder = StubDecoder::working();
    let mut args = args_for(Source::ImagePathVec(names(8)));
    args.batch = Some(4);
    let mut results = Some(Vec::new());
    let progress = batch_sequential_infer(
        &mut engine,
        &annotator,
        &mut sink,
        &decoder,
        &args,
        &DirListing::NotFound,
        &mut results,
    )
    .unwrap();
    let results = results.unwrap();
    // The first batch's frames still produce correct per-item outcomes.
    assert_eq!(results.len(), 8);
    assert_eq!(progress.count(), 8);
    assert_eq!(indices(&results), (0..8).collect::<Vec<_>>());
    assert_eq!(
        results.iter().map(|r| r.result).collect::<Vec<_>>(),
        (1001..=1008).collect::<Vec<_>>()
    );
    // Exactly one batched attempt was ever made.
    assert_eq!(engine.batch_calls, 1);
    assert_eq!(engine.single_calls, 8);
}

#[test]
fn staged_run_preserves_order_for_multi_frame_sources() {
    let mut engine = StubEngine::working();
    let annotator = StubAnnotator;
    let mut sink = RecordingSink::working();
    let decoder = StubDecoder::working();
    let mut args = args_for(Source::ImageVec((0..7).map(|_| tiny_image()).collect()));
    args.channel_capacity = Some(3);
    let mut results = Some(Vec::new());
    let progress = channel_pipeline_infer(
        &mut engine,
        &annotator,
        &mut sink,
        &decoder,
        &args,
        &DirListing::NotFound,
        &mut results,
    )
    .unwrap();
    let results = results.unwrap();
    assert_eq!(progress.count(), 7);
    assert_eq!(indices(&results), (0..7).collect::<Vec<_>>());
}

#[test]
fn failed_destination_preparation_aborts_the_invocation() {
    let mut engine = StubEngine::working();
    let annotator = StubAnnotator;
    let mut sink = RecordingSink::working();
    sink.fail_prepare = true;
    let decoder = StubDecoder::working();
    let mut args = args_for(Source::ImageVec(vec![tiny_image()]));
    args.save_dir = Some("out".to_string());
    let mut results = Some(Vec::new());
    let r = sequential_infer(
        &mut engine,
        &annotator,
        &mut sink,
        &decoder,
        &args,
        &DirListing::NotFound,
        &mut results,
    );
    match r {
        Err(AppError::Io(d)) => assert_eq!(d, "out"),
        _ => panic!("expected the preparation error"),
    }
}

#[test]
fn save_failures_drop_the_frame_from_count_and_results() {
    let mut engine = StubEngine::working();
    let annotator = StubAnnotator;
    let mut sink = RecordingSink::working();
    sink.fail_save = true;
    let decoder = StubDecoder::working();
    let mut args = args_for(Source::ImageVec(vec![tiny_image(), tiny_image()]));
    args.annotate = true;
    args.save_dir = Some("out".to_string());
    let mut results = Some(Vec::new());
    let progress = sequential_infer(
        &mut engine,
        &annotator,
        &mut sink,
        &decoder,
        &args,
        &DirListing::NotFound,
        &mut results,
    )
    .unwrap();
    assert_eq!(progress.count(), 0);
    assert_eq!(results.unwrap().len(), 0);
}

#[test]
fn run_prediction_returns_results_exactly_when_asked() {
    let annotator = StubAnnotator;
    let decoder = StubDecoder::working();
    let listing = DirListing::NotFound;

    let mut engine = StubEngine::working();
    let mut sink = RecordingSink::working();
    let mut args = args_for(Source::ImageVec(vec![tiny_image(), tiny_image()]));
    args.return_result = false;
    let r = run_prediction(&mut engine, &annotator, &mut sink, &decoder, &args, &listing);
    assert!(matches!(r, Ok(None)));

    let mut engine = StubEngine::working();
    let mut sink = RecordingSink::working();
    let args = args_for(Source::ImageVec(vec![tiny_image(), tiny_image()]));
    let r = run_prediction(&mut engine, &annotator, &mut sink, &decoder, &args, &listing);
    let results = r.unwrap().unwrap();
    assert_eq!(results.len(), 2);
}

#[test]
fn online_prediction_rejects_path_sources() {
    let annotator = StubAnnotator;
    let decoder = StubDecoder::working();
    let mut engine = StubEngine::working();
    let mut sink = RecordingSink::working();
    let args = args_for(Source::NoSource);
    let r = run_online_prediction(
        &mut engine,
        &annotator,
        &mut sink,
        &decoder,
        &Source::ImagePath("a.jpg".to_string()),
        &args,
    );
    assert!(matches!(r, Err(AppError::Config(_))));

    let r = run_online_prediction(
        &mut engine,
        &annotator,
        &mut sink,
        &decoder,
        &Source::Image(tiny_image()),
        &args,
    );
    let results = r.unwrap().unwrap();
    assert_eq!(results.len(), 1);
}

#[test]
fn sources_classify_themselves() {
    assert!(Source::NoSource.is_none());
    assert!(Source::Image(tiny_image()).is_image());
    assert!(Source::ImagePath("a.jpg".to_string()).is_image());
    assert!(Source::Directory("d".to_string()).is_batch());
    assert!(Source::ImagePathVec(vec![]).is_batch());
    assert!(Source::ImageVec(vec![]).is_batch());
    assert!(!Source::Image(tiny_image()).is_batch());
    assert!(matches!(Source::default(), Source::NoSource));
}

#[test]
fn test_source_from_path() {
    // A plain file path becomes a single-image source; a directory (the one
    // fact the file system supplies) becomes a directory source.
    let source = yolo_pipeline::source::source_from_path("test.jpg".to_string(), false);
    match source {
        Source::ImagePath(p) => assert_eq!(p, "test.jpg"),
        _ => panic!("Expected ImagePath"),
    }
    let source = yolo_pipeline::source::source_from_path("/tmp".to_string(), true);
    match source {
        Source::Directory(p) => assert_eq!(p, "/tmp"),
        _ => panic!("Expected Directory"),
    }
}

#[test]
fn batch_frame_names_label_unnamed_frames_positionally() {
    let metas = vec![
        yolo_pipeline::source::SourceMeta { frame_idx: 0, total_frames: 2, source_path: Some("d/a.jpg".to_string()) },
        yolo_pipeline::source::SourceMeta { frame_idx: 1, total_frames: 2, source_path: None },
    ];
    let names = yolo_pipeline::batch_utils::get_batch_frame_names(&metas);
    assert_eq!(names, vec!["a.jpg".to_string(), "frame_3".to_string()]);
}
