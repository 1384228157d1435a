use image::DynamicImage;
use yolo_pipeline::batch_loader::BatchSourceLoader;
use yolo_pipeline::collab::ImageDecoder;
use yolo_pipeline::error::AppError;
use yolo_pipeline::loader::SourceLoader;
use yolo_pipeline::source::{filter_image_paths, DirListing, Source};

fn tiny_image() -> DynamicImage {
    DynamicImage::new_rgb8(2, 2)
}

/// A decoder that fails on chosen paths and hands back a tiny image
/// otherwise.
struct StubDecoder {
    fail_on: Vec<String>,
}

impl ImageDecoder for StubDecoder {
    fn decode(&self, path: &String) -> Option<DynamicImage> {
        if self.fail_on.contains(path) {
            None
        } else {
            Some(tiny_image())
        }
    }
}

fn names(n: usize) -> Vec<String> {
    (0..n).map(|i| format!("d/img{}.jpg", i)).collect()
}

#[test]
fn sources_describe_themselves() {
    assert_eq!(Source::NoSource.describe(), "None");
    assert_eq!(Source::ImagePath("a.jpg".to_string()).describe(), "ImagePath(a.jpg)");
    assert_eq!(Source::Directory("d".to_string()).describe(), "Directory(d)");
    assert_eq!(
        Source::ImagePathVec(vec!["a.jpg".to_string(), "b.jpg".to_string()]).describe(),
        "ImagePathVec(2 items)"
    );
    assert_eq!(Source::Image(DynamicImage::new_rgb8(4, 3)).describe(), "Image(4x3)");
    assert_eq!(Source::ImageVec(vec![]).describe(), "ImageVec(0 items)");
}

#[test]
fn filtering_keeps_only_recognized_images_in_order() {
    let paths = vec![
        "a.jpg".to_string(),
        "notes.txt".to_string(),
        "b.PNG".to_string(),
        "c".to_string(),
        "d.tif".to_string(),
    ];
    assert_eq!(filter_image_paths(&paths), vec!["a.jpg", "b.PNG", "d.tif"]);
}

#[test]
fn loader_yields_every_frame_of_an_image_list() {
    let decoder = StubDecoder { fail_on: vec![] };
    let source = Source::ImageVec(vec![tiny_image(), tiny_image(), tiny_image()]);
    let mut loader = SourceLoader::new(&source, &DirListing::Listed(vec![])).unwrap();
    assert_eq!(loader.len(), 3);
    let mut seen = vec![];
    while let Some((_img, meta)) = loader.next(&decoder) {
        assert_eq!(meta.total_frames, 3);
        assert_eq!(meta.source_path, None);
        seen.push(meta.frame_idx);
    }
    assert_eq!(seen, vec![0, 1, 2]);
}

#[test]
fn loader_length_upper_bounds_yields_under_decode_failure() {
    let files = names(5);
    let decoder = StubDecoder { fail_on: vec![files[2].clone()] };
    let source = Source::Directory("d".to_string());
    let mut loader = SourceLoader::new(&source, &DirListing::Listed(files.clone())).unwrap();
    assert_eq!(loader.len(), 5);
    let mut seen = vec![];
    while let Some((_img, meta)) = loader.next(&decoder) {
        assert_eq!(meta.source_path.as_deref(), Some(files[meta.frame_idx].as_str()));
        seen.push(meta.frame_idx);
    }
    assert_eq!(seen, vec![0, 1, 3, 4]);
}

#[test]
fn missing_directory_is_the_one_enumeration_error() {
    let source = Source::Directory("gone".to_string());
    match SourceLoader::new(&source, &DirListing::NotFound) {
        Err(AppError::ImageCollection(d)) => assert_eq!(d, "gone"),
        _ => panic!("expected the collection error"),
    }
    match BatchSourceLoader::new(&source, Some(4), &DirListing::NotFound) {
        Err(AppError::ImageCollection(_)) => {}
        _ => panic!("expected the collection error"),
    }
}

#[test]
fn unreadable_directory_yields_no_frames() {
    let source = Source::Directory("locked".to_string());
    let loader = SourceLoader::new(&source, &DirListing::Unreadable).unwrap();
    assert_eq!(loader.len(), 0);
}

#[test]
fn single_path_source_is_filtered_by_extension() {
    let listing = DirListing::Listed(vec![]);
    let good = SourceLoader::new(&Source::ImagePath("a.jpg".to_string()), &listing).unwrap();
    assert_eq!(good.len(), 1);
    let bad = SourceLoader::new(&Source::ImagePath("a.txt".to_string()), &listing).unwrap();
    assert_eq!(bad.len(), 0);
}

#[test]
fn chunker_reports_exact_counts_and_batch_shapes() {
    let decoder = StubDecoder { fail_on: vec![] };
    let source = Source::Directory("d".to_string());
    let mut loader =
        BatchSourceLoader::new(&source, Some(4), &DirListing::Listed(names(10))).unwrap();
    assert_eq!(loader.len(), 3);
    assert_eq!(loader.total_frames(), 10);
    let mut sizes = vec![];
    let mut indices = vec![];
    while let Some((images, metas)) = loader.next(&decoder) {
        assert_eq!(images.len(), metas.len());
        sizes.push(metas.len());
        for meta in &metas {
            assert_eq!(meta.total_frames, 10);
            indices.push(meta.frame_idx);
        }
    }
    // Padding never surfaces: the last batch is simply shorter.
    assert_eq!(sizes, vec![4, 4, 2]);
    assert_eq!(indices, (0..10).collect::<Vec<_>>());
}

#[test]
fn chunker_frame_indices_follow_batch_and_slot() {
    let decoder = StubDecoder { fail_on: vec![] };
    let source = Source::ImagePathVec(names(7));
    let mut loader = BatchSourceLoader::new(&source, Some(3), &DirListing::NotFound).unwrap();
    assert_eq!(loader.len(), 3);
    assert_eq!(loader.total_frames(), 7);
    let mut b = 0;
    while let Some((_images, metas)) = loader.next(&decoder) {
        for (i, meta) in metas.iter().enumerate() {
            assert_eq!(meta.frame_idx, b * 3 + i);
        }
        b += 1;
    }
    assert_eq!(b, 3);
}

#[test]
fn chunker_clamps_absent_or_zero_batch_sizes_to_one() {
    let source = Source::ImagePathVec(names(3));
    let loader = BatchSourceLoader::new(&source, None, &DirListing::NotFound).unwrap();
    assert_eq!(loader.len(), 3);
    let loader0 = BatchSourceLoader::new(&source, Some(0), &DirListing::NotFound).unwrap();
    assert_eq!(loader0.len(), 3);
    assert_eq!(loader0.total_frames(), 3);
}

#[test]
fn chunker_total_is_conserved_when_every_decode_succeeds() {
    let decoder = StubDecoder { fail_on: vec![] };
    let source = Source::ImagePathVec(names(9));
    let mut loader = BatchSourceLoader::new(&source, Some(4), &DirListing::NotFound).unwrap();
    let total = loader.total_frames();
    let mut yielded = 0;
    while let Some((images, _metas)) = loader.next(&decoder) {
        yielded += images.len();
    }
    assert_eq!(yielded, total);
}

#[test]
fn chunker_skips_failed_decodes_without_surfacing_them() {
    let files = names(5);
    let decoder = StubDecoder { fail_on: vec![files[0].clone(), files[4].clone()] };
    let source = Source::ImagePathVec(files);
    let mut loader = BatchSourceLoader::new(&source, Some(2), &DirListing::NotFound).unwrap();
    let mut indices = vec![];
    while let Some((_images, metas)) = loader.next(&decoder) {
        for meta in &metas {
            indices.push(meta.frame_idx);
        }
    }
    assert_eq!(indices, vec![1, 2, 3]);
}
