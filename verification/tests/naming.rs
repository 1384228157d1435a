use yolo_pipeline::annotate::{is_ascii, AnnotateConfigs};
use yolo_pipeline::error::AppError;
use yolo_pipeline::pathname::{
    decimal_string, extension_of, file_name_of, file_stem_of, frame_label, is_image_file,
    resolve_path,
};
use yolo_pipeline::source::{save_path_for, SourceMeta};

#[test]
fn file_name_and_stem_follow_the_last_separator_and_dot() {
    assert_eq!(file_name_of("dir/sub/img.jpg"), "img.jpg");
    assert_eq!(file_stem_of("dir/sub/img.jpg"), "img");
    assert_eq!(extension_of("dir/sub/img.jpg"), Some("jpg".to_string()));
    assert_eq!(file_name_of("img.jpg"), "img.jpg");
    assert_eq!(file_stem_of("archive.tar.gz"), "archive.tar");
    assert_eq!(extension_of("archive.tar.gz"), Some("gz".to_string()));
    assert_eq!(file_stem_of("dir/noext"), "noext");
    assert_eq!(extension_of("dir/noext"), None);
    // A name whose only dot leads it has no extension.
    assert_eq!(file_stem_of(".config"), ".config");
    assert_eq!(extension_of(".config"), None);
    // A trailing separator leaves an empty name.
    assert_eq!(file_name_of("dir/"), "");
}

#[test]
fn image_extensions_are_recognized_without_regard_to_case() {
    assert!(is_image_file(&"a.jpg".to_string()));
    assert!(is_image_file(&"a.JPG".to_string()));
    assert!(is_image_file(&"b.jpeg".to_string()));
    assert!(is_image_file(&"c.PnG".to_string()));
    assert!(is_image_file(&"d.bmp".to_string()));
    assert!(is_image_file(&"e.gif".to_string()));
    assert!(is_image_file(&"f.webp".to_string()));
    assert!(is_image_file(&"g.tiff".to_string()));
    assert!(is_image_file(&"h.tif".to_string()));
    assert!(!is_image_file(&"x.txt".to_string()));
    assert!(!is_image_file(&"noext".to_string()));
    assert!(!is_image_file(&".jpg".to_string()));
    assert!(!is_image_file(&"dir.jpg/file".to_string()));
}

#[test]
fn decimal_labels_are_exact() {
    assert_eq!(decimal_string(0), "0");
    assert_eq!(decimal_string(7), "7");
    assert_eq!(decimal_string(123), "123");
    assert_eq!(decimal_string(1000), "1000");
    assert_eq!(frame_label(42), "frame_42");
}

#[test]
fn frame_stem_and_name_use_the_path_or_the_label() {
    let with_path = SourceMeta {
        frame_idx: 3,
        total_frames: 10,
        source_path: Some("in/cat.png".to_string()),
    };
    assert_eq!(with_path.frame_stem(), "cat");
    assert_eq!(with_path.frame_name(), "cat.png");
    let without_path = SourceMeta { frame_idx: 3, total_frames: 10, source_path: None };
    assert_eq!(without_path.frame_stem(), "frame_3");
    assert_eq!(without_path.frame_name(), "frame_3");
}

#[test]
fn save_paths_join_the_stem_under_the_directory() {
    let meta = SourceMeta {
        frame_idx: 0,
        total_frames: 1,
        source_path: Some("in/cat.jpg".to_string()),
    };
    assert_eq!(save_path_for(&"out".to_string(), &meta), "out/cat.png");
    let unnamed = SourceMeta { frame_idx: 5, total_frames: 8, source_path: None };
    assert_eq!(save_path_for(&"out".to_string(), &unnamed), "out/frame_5.png");
}

#[test]
fn path_resolution_keeps_absolute_paths() {
    assert_eq!(
        resolve_path(&"/root/proj".to_string(), &"assets/a.jpg".to_string()),
        "/root/proj/assets/a.jpg"
    );
    assert_eq!(resolve_path(&"/root/proj".to_string(), &"/abs/a.jpg".to_string()), "/abs/a.jpg");
}

#[test]
fn ascii_check_matches_the_characters() {
    assert!(is_ascii("plain name 123"));
    assert!(!is_ascii("caf\u{e9}"));
}

#[test]
fn annotate_defaults_draw_everything_but_blanks() {
    let cfg = AnnotateConfigs::default();
    assert!(!cfg.on_blank);
    assert!(cfg.show_box);
    assert!(cfg.show_label);
    assert!(cfg.show_conf);
    assert_eq!(cfg.top_k, Some(5));
}

#[test]
fn image_info_reports_the_real_geometry() {
    let image = image::DynamicImage::new_rgb8(2, 3);
    let info = yolo_pipeline::collab::image_info(&image);
    assert_eq!(info.width, 2);
    assert_eq!(info.height, 3);
    assert_eq!(info.channels, 3);
}

#[test]
fn error_messages_carry_their_class_and_detail() {
    assert_eq!(AppError::Config("bad".to_string()).message(), "Invalid configuration: bad");
    assert_eq!(AppError::Io("out".to_string()).message(), "IO error: out");
    assert_eq!(
        AppError::ImageCollection("d".to_string()).message(),
        "Image collection failed: d"
    );
}
