use bulk_watermark::commands::{
    build_output_path, input_missing, output_file_name, process_single_file, rejected_file_result,
    validate_config, BatchRun, ProcessingError,
};
use bulk_watermark::ffmpeg::FfmpegError;
use bulk_watermark::types::{
    CustomPosition, ProcessingStatus, WatermarkConfig, WatermarkType,
};

fn message(r: Result<(), ProcessingError>) -> String {
    match r {
        Err(ProcessingError::Message(m)) => m,
        other => panic!("unexpected {:?}", other),
    }
}

#[test]
fn opacity_bound() {
    let mut c = WatermarkConfig::default();
    c.opacity = 101;
    assert_eq!(message(validate_config(&c, false)), "Opacity must be between 0 and 100");
    c.opacity = 255;
    assert!(validate_config(&c, false).is_err());
    c.opacity = 100;
    assert!(validate_config(&c, false).is_ok());
    c.opacity = 0;
    assert!(validate_config(&c, false).is_ok());
}

#[test]
fn custom_position_bounds() {
    let mut c = WatermarkConfig::default();
    c.position_mode = Some("custom".to_string());
    c.custom_position = Some(CustomPosition { x: 1_500_000, y: 500_000 });
    assert_eq!(
        message(validate_config(&c, false)),
        "Custom position x must be between 0.0 and 1.0, got 1.5"
    );
    c.custom_position = Some(CustomPosition { x: 0, y: -250_000 });
    assert_eq!(
        message(validate_config(&c, false)),
        "Custom position y must be between 0.0 and 1.0, got -0.25"
    );
    c.custom_position = Some(CustomPosition { x: 2_000_000, y: 0 });
    assert_eq!(
        c.validate_custom_position().unwrap_err(),
        "Custom position x must be between 0.0 and 1.0, got 2"
    );
    c.custom_position = Some(CustomPosition { x: 0, y: 1_000_000 });
    assert!(validate_config(&c, false).is_ok());
    assert!(c.validate_custom_position().is_ok());
    c.custom_position = None;
    assert_eq!(
        message(validate_config(&c, false)),
        "Custom position mode requires customPosition field"
    );
}

#[test]
fn custom_range_ignored_in_preset_mode() {
    let mut c = WatermarkConfig::default();
    c.custom_position = Some(CustomPosition { x: 3_000_000, y: 0 });
    assert!(validate_config(&c, false).is_ok());
    assert!(c.validate_custom_position().is_err());
}

#[test]
fn kind_requirements() {
    let mut c = WatermarkConfig::default();
    c.text = "   ".to_string();
    assert_eq!(message(validate_config(&c, false)), "Text watermark requires non-empty text");
    c.watermark_type = WatermarkType::Image;
    assert_eq!(message(validate_config(&c, false)), "Image watermark requires image_path");
    c.image_path = Some("/img/w.png".to_string());
    assert_eq!(message(validate_config(&c, false)), "Watermark image not found at /img/w.png");
    assert!(validate_config(&c, true).is_ok());
    c.opacity = 120;
    assert_eq!(message(validate_config(&c, true)), "Opacity must be between 0 and 100");
}

#[test]
fn catastrophic_classification() {
    assert!(ProcessingError::Ffmpeg(FfmpegError::MissingBinary("m".to_string())).is_catastrophic());
    assert!(ProcessingError::Ffmpeg(FfmpegError::Spawn("s".to_string())).is_catastrophic());
    assert!(!ProcessingError::Ffmpeg(FfmpegError::Execution("e".to_string())).is_catastrophic());
    assert!(!ProcessingError::Ffmpeg(FfmpegError::UnsupportedFormat("u".to_string())).is_catastrophic());
    assert!(!ProcessingError::Message("m".to_string()).is_catastrophic());
    assert!(!ProcessingError::Io("i".to_string()).is_catastrophic());
}

#[test]
fn output_paths() {
    assert_eq!(build_output_path("/out", "photo.png"), "/out/photo_watermarked.png");
    assert_eq!(build_output_path("/out/", "clip.tar.mp4"), "/out/clip.tar_watermarked.mp4");
    assert_eq!(build_output_path("/out", "README"), "/out/README_watermarked.out");
    assert_eq!(build_output_path("/out", "/in/deep/x.jpg"), "/out/x_watermarked.jpg");
    assert_eq!(build_output_path("/out", "/in/photo.JPG"), "/out/photo_watermarked.JPG");
    assert_eq!(build_output_path("/out", "/in/README"), "/out/README_watermarked.out");
    assert_eq!(build_output_path("", "a.png"), "a_watermarked.png");
    assert_eq!(output_file_name(None, None), "watermarked_watermarked.out");
    assert_eq!(output_file_name(Some("a"), Some("b")), "a_watermarked.b");
}

#[test]
fn missing_input_message() {
    assert_eq!(input_missing().message(), "Input file not found");
    assert!(!input_missing().is_catastrophic());
}

#[test]
fn single_file_outcomes() {
    let ok = process_single_file("in.png".to_string(), "out.png".to_string(), Ok(()), Some(Ok(())))
        .unwrap();
    assert_eq!(ok.status, ProcessingStatus::Success);
    assert_eq!(ok.output_path, Some("out.png".to_string()));
    assert_eq!(ok.error, None);
    let failed = process_single_file(
        "in.png".to_string(),
        "out.png".to_string(),
        Ok(()),
        Some(Err(ProcessingError::Ffmpeg(FfmpegError::Execution("boom".to_string())))),
    )
    .unwrap();
    assert_eq!(failed.status, ProcessingStatus::Failed);
    assert_eq!(failed.output_path, None);
    assert_eq!(failed.error, Some("FFmpeg exited with error: boom".to_string()));
    let hard = process_single_file(
        "in.png".to_string(),
        "out.png".to_string(),
        Ok(()),
        Some(Err(ProcessingError::Ffmpeg(FfmpegError::MissingBinary("gone".to_string())))),
    );
    assert_eq!(hard.unwrap_err(), "FFmpeg binary not found: gone");
    let mut c = WatermarkConfig::default();
    c.opacity = 200;
    let rejected = process_single_file(
        "in.png".to_string(),
        "out.png".to_string(),
        validate_config(&c, false),
        None,
    )
    .unwrap();
    assert_eq!(rejected.status, ProcessingStatus::Failed);
    assert_eq!(rejected.output_path, None);
    assert_eq!(rejected.error, Some("Opacity must be between 0 and 100".to_string()));
    let direct = rejected_file_result(
        "in.png".to_string(),
        &ProcessingError::Message("Opacity must be between 0 and 100".to_string()),
    );
    assert_eq!(direct.error, Some("Opacity must be between 0 and 100".to_string()));
}

#[test]
fn batch_with_one_unsupported_file() {
    let mut run = BatchRun::new(3);
    let start = run.start_file("a.png");
    assert_eq!(start.status, "processing");
    assert_eq!(start.file_index, 0);
    assert_eq!(start.total_files, 3);
    let p = run.finish_file("a.png".to_string(), "/o/a_watermarked.png".to_string(), Ok(())).unwrap();
    assert_eq!(p.status, "complete");
    let p = run
        .finish_file(
            "b.txt".to_string(),
            "/o/b_watermarked.txt".to_string(),
            Err(ProcessingError::Ffmpeg(FfmpegError::UnsupportedFormat("txt".to_string()))),
        )
        .unwrap();
    assert_eq!(p.status, "error");
    assert_eq!(p.file_index, 1);
    assert_eq!(run.start_file("c.mp4").file_index, 2);
    run.finish_file("c.mp4".to_string(), "/o/c_watermarked.mp4".to_string(), Ok(())).unwrap();
    let result = run.finish().unwrap();
    assert_eq!(result.total, 3);
    assert_eq!(result.successful, 2);
    assert_eq!(result.failed, 1);
    assert_eq!(result.files.len(), 3);
    assert_eq!(result.files[1].output_path, None);
    assert_eq!(result.files[1].status, ProcessingStatus::Failed);
    assert_eq!(result.files[1].error, Some("Unsupported file format: txt".to_string()));
}

#[test]
fn batch_aborts_on_missing_binary() {
    let mut run = BatchRun::new(3);
    run.finish_file("a.png".to_string(), "/o/a.png".to_string(), Ok(())).unwrap();
    let err = run
        .finish_file(
            "b.png".to_string(),
            "/o/b.png".to_string(),
            Err(ProcessingError::Ffmpeg(FfmpegError::MissingBinary("ffmpeg".to_string()))),
        )
        .unwrap_err();
    assert_eq!(err, "FFmpeg binary not found: ffmpeg");
    assert!(run.aborted);
    assert!(run.finish_file("c.png".to_string(), "/o/c.png".to_string(), Ok(())).is_err());
    assert_eq!(run.results.len(), 1);
    assert!(run.finish().is_none());
}

#[test]
fn empty_batch_finishes() {
    let run = BatchRun::new(0);
    let r = run.finish().unwrap();
    assert_eq!((r.total, r.successful, r.failed), (0, 0, 0));
}
