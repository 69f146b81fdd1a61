use bulk_watermark::ffmpeg::{
    build_ffmpeg_command, build_image_watermark_filter, build_text_watermark_filter,
    classify_extension, detect_file_type, interpret_run, normalize_color,
    overlay_position_expression, text_position_expression, thumbnail_extraction_args, FfmpegError,
    RunReport,
};
use bulk_watermark::types::{CustomPosition, WatermarkConfig, WatermarkPosition, WatermarkType};

fn text_config() -> WatermarkConfig {
    WatermarkConfig::default()
}

fn image_config(position: WatermarkPosition) -> WatermarkConfig {
    let mut c = WatermarkConfig::default();
    c.watermark_type = WatermarkType::Image;
    c.image_path = Some("/img/logo.png".to_string());
    c.position = position;
    c
}

fn custom(c: &mut WatermarkConfig, x: i64, y: i64) {
    c.position_mode = Some("custom".to_string());
    c.custom_position = Some(CustomPosition { x, y });
}

#[test]
fn default_config_values() {
    let c = WatermarkConfig::default();
    assert_eq!(c.text, "Watermark");
    assert_eq!(c.opacity, 80);
    assert_eq!(c.font_size, 48);
    assert_eq!(c.image_scale, Some(20));
    assert_eq!(c.position, WatermarkPosition::BottomRight);
    assert!(!c.is_custom_position());
}

#[test]
fn text_filter_for_default_config() {
    let f = build_text_watermark_filter(&text_config(), false).unwrap();
    assert_eq!(
        f,
        "drawtext=text='Watermark':font='Arial':fontsize=48:fontcolor=0xffffff@0.800:shadowcolor=black@0.5:shadowx=2:shadowy=2:x=w-text_w-20:y=h-text_h-20"
    );
}

#[test]
fn text_filter_escapes_special_characters() {
    let mut c = text_config();
    c.text = "a:b'c\\d%{e}".to_string();
    c.font_family = "My:Font's%{x}".to_string();
    let f = build_text_watermark_filter(&c, true).unwrap();
    assert!(f.starts_with(
        "drawtext=text='a\\:b\\'c\\\\d\\%\\{e\\}':font='My\\:Font\\'s\\%\\{x\\}':"
    ));
}

#[test]
fn escaped_text_reads_back_as_original() {
    let original = "x\\'y:%{}z";
    let mut c = text_config();
    c.text = original.to_string();
    let f = build_text_watermark_filter(&c, false).unwrap();
    let start = "drawtext=text='".len();
    let end = f.find("':font='").unwrap();
    let escaped: Vec<char> = f[start..end].chars().collect();
    let mut read = String::new();
    let mut i = 0;
    while i < escaped.len() {
        if escaped[i] == '\\' && i + 1 < escaped.len() {
            read.push(escaped[i + 1]);
            i += 2;
        } else {
            read.push(escaped[i]);
            i += 1;
        }
    }
    assert_eq!(read, original);
}

#[test]
fn text_filter_rejects_blank_text() {
    let mut c = text_config();
    c.text = "  \t ".to_string();
    match build_text_watermark_filter(&c, false) {
        Err(FfmpegError::InvalidConfig(m)) => assert_eq!(m, "text watermark requires non-empty text"),
        other => panic!("unexpected {:?}", other),
    }
}

#[test]
fn custom_text_position_is_quoted() {
    let mut c = text_config();
    custom(&mut c, 500_000, 250_000);
    let f = build_text_watermark_filter(&c, false).unwrap();
    assert!(f.ends_with(
        ":x='max(0, min(w-text_w, w*0.500000-text_w/2))':y='max(0, min(h-text_h, h*0.250000-text_h/2))'"
    ));
}

#[test]
fn preset_expressions() {
    let mut c = text_config();
    c.position = WatermarkPosition::Center;
    assert_eq!(
        text_position_expression(&c),
        ("(w-text_w)/2".to_string(), "(h-text_h)/2".to_string())
    );
    assert_eq!(
        overlay_position_expression(&c),
        ("(W-w)/2".to_string(), "(H-h)/2".to_string())
    );
    c.position = WatermarkPosition::TopRight;
    assert_eq!(overlay_position_expression(&c), ("W-w-20".to_string(), "20".to_string()));
    c.position = WatermarkPosition::BottomLeft;
    assert_eq!(text_position_expression(&c), ("20".to_string(), "h-text_h-20".to_string()));
}

#[test]
fn custom_overlay_expression_at_half() {
    let mut c = image_config(WatermarkPosition::TopLeft);
    custom(&mut c, 500_000, 500_000);
    assert_eq!(
        overlay_position_expression(&c),
        (
            "max(0, min(W-w, W*0.500000-w/2))".to_string(),
            "max(0, min(H-h, H*0.500000-h/2))".to_string()
        )
    );
}

#[test]
fn custom_mode_without_position_falls_back_to_preset() {
    let mut c = text_config();
    c.position_mode = Some("custom".to_string());
    c.custom_position = None;
    assert_eq!(
        text_position_expression(&c),
        ("w-text_w-20".to_string(), "h-text_h-20".to_string())
    );
}

#[test]
fn color_normalization() {
    assert_eq!(normalize_color("#ffffff", 80), "0xffffff@0.800");
    assert_eq!(normalize_color("#00ff00", 5), "0x00ff00@0.050");
    assert_eq!(normalize_color("red", 100), "red@1.000");
    assert_eq!(normalize_color("red", 150), "red@1.000");
    assert_eq!(normalize_color("blue", 0), "blue@0.000");
}

#[test]
fn image_filter_centered() {
    let c = image_config(WatermarkPosition::Center);
    let f = build_image_watermark_filter(&c, "/img/logo.png", true).unwrap();
    assert_eq!(
        f,
        "[1:v][0:v]scale2ref=w=iw*20/100:h=ow/mdar[wm][base];[wm]format=rgba,colorchannelmixer=aa=0.800[wm_alpha];[base][wm_alpha]overlay=x=(W-w)/2:y=(H-h)/2"
    );
}

#[test]
fn image_filter_scale_and_errors() {
    let mut c = image_config(WatermarkPosition::TopLeft);
    c.image_scale = Some(35);
    c.opacity = 50;
    let f = build_image_watermark_filter(&c, "/img/logo.png", true).unwrap();
    assert!(f.starts_with("[1:v][0:v]scale2ref=w=iw*35/100:h=ow/mdar[wm][base];"));
    assert!(f.contains("colorchannelmixer=aa=0.500[wm_alpha]"));
    assert!(f.ends_with("overlay=x=20:y=20"));
    match build_image_watermark_filter(&c, " ", true) {
        Err(FfmpegError::InvalidConfig(m)) => assert_eq!(m, "image watermark requires an image path"),
        other => panic!("unexpected {:?}", other),
    }
    match build_image_watermark_filter(&c, "/img/gone.png", false) {
        Err(FfmpegError::InvalidConfig(m)) => assert_eq!(m, "watermark image not found at /img/gone.png"),
        other => panic!("unexpected {:?}", other),
    }
}

#[test]
fn command_for_text_on_image() {
    let args = build_ffmpeg_command("/in/a.png", "/out/a.png", &text_config(), false, false).unwrap();
    assert_eq!(args.len(), 8);
    assert_eq!(args[0], "-i");
    assert_eq!(args[1], "/in/a.png");
    assert_eq!(args[2], "-vf");
    assert!(args[3].starts_with("drawtext="));
    assert_eq!(&args[4..], &["-frames:v", "1", "-y", "/out/a.png"]);
}

#[test]
fn command_for_image_on_video() {
    let c = image_config(WatermarkPosition::BottomRight);
    let args = build_ffmpeg_command("/in/v.mp4", "/out/v.mp4", &c, true, true).unwrap();
    assert_eq!(&args[..5], &["-i", "/in/v.mp4", "-i", "/img/logo.png", "-filter_complex"]);
    assert!(args[5].ends_with("overlay=x=W-w-20:y=H-h-20"));
    assert_eq!(&args[6..], &["-c:a", "copy", "-y", "/out/v.mp4"]);
}

#[test]
fn command_requires_image_path() {
    let mut c = image_config(WatermarkPosition::Center);
    c.image_path = None;
    match build_ffmpeg_command("/in/a.png", "/out/a.png", &c, false, true) {
        Err(FfmpegError::InvalidConfig(m)) => assert_eq!(m, "image watermark requires image_path"),
        other => panic!("unexpected {:?}", other),
    }
}

#[test]
fn file_type_detection() {
    assert_eq!(detect_file_type("photo.PNG").unwrap(), false);
    assert_eq!(detect_file_type("clip.mp4").unwrap(), true);
    assert_eq!(detect_file_type("/some/dir/clip.MkV").unwrap(), true);
    match detect_file_type("notes.txt") {
        Err(FfmpegError::UnsupportedFormat(e)) => assert_eq!(e, "txt"),
        other => panic!("unexpected {:?}", other),
    }
    match detect_file_type("README") {
        Err(FfmpegError::UnsupportedFormat(e)) => assert_eq!(e, "missing file extension"),
        other => panic!("unexpected {:?}", other),
    }
    match classify_extension(Some("TXT")) {
        Err(FfmpegError::UnsupportedFormat(e)) => assert_eq!(e, "txt"),
        other => panic!("unexpected {:?}", other),
    }
    assert_eq!(classify_extension(Some("WebP")).unwrap(), false);
}

#[test]
fn thumbnail_arguments() {
    let args = thumbnail_extraction_args("clip.mov", "/tmp/k.jpg", true).unwrap();
    assert_eq!(args, vec!["-i", "clip.mov", "-frames:v", "1", "-q:v", "3", "-y", "/tmp/k.jpg"]);
    match thumbnail_extraction_args("clip.mov", "/tmp/k.jpg", false) {
        Err(FfmpegError::Path(m)) => assert_eq!(m, "Video file not found: clip.mov"),
        other => panic!("unexpected {:?}", other),
    }
    match thumbnail_extraction_args("still.jpg", "/tmp/k.jpg", true) {
        Err(FfmpegError::UnsupportedFormat(m)) => assert_eq!(m, "File is not a video"),
        other => panic!("unexpected {:?}", other),
    }
}

#[test]
fn run_reports() {
    let ok = interpret_run(RunReport::Exited {
        success: true,
        stdout: "done".to_string(),
        stderr: String::new(),
    });
    assert_eq!(ok.unwrap(), "done");
    match interpret_run(RunReport::Exited {
        success: false,
        stdout: String::new(),
        stderr: "bad input".to_string(),
    }) {
        Err(FfmpegError::Execution(m)) => assert_eq!(m, "bad input"),
        other => panic!("unexpected {:?}", other),
    }
    match interpret_run(RunReport::Unavailable("no sidecar".to_string())) {
        Err(FfmpegError::Spawn(m)) => assert_eq!(m, "no sidecar"),
        other => panic!("unexpected {:?}", other),
    }
    match interpret_run(RunReport::LaunchFailed("denied".to_string())) {
        Err(FfmpegError::Spawn(m)) => assert_eq!(m, "denied"),
        other => panic!("unexpected {:?}", other),
    }
}

#[test]
fn error_messages() {
    assert_eq!(
        FfmpegError::MissingBinary("x".to_string()).message(),
        "FFmpeg binary not found: x"
    );
    assert_eq!(FfmpegError::Execution("y".to_string()).message(), "FFmpeg exited with error: y");
    assert_eq!(FfmpegError::Path("z".to_string()).message(), "Path error: z");
}

#[test]
fn preset_pixel_coordinates() {
    assert_eq!(WatermarkPosition::Center.to_ffmpeg_coords(1920, 1080, 200, 100), (860, 490));
    assert_eq!(WatermarkPosition::TopLeft.to_ffmpeg_coords(1920, 1080, 200, 100), (20, 20));
    assert_eq!(WatermarkPosition::BottomRight.to_ffmpeg_coords(1920, 1080, 200, 100), (1700, 960));
    assert_eq!(WatermarkPosition::CenterLeft.to_ffmpeg_coords(100, 100, 60, 60), (20, 20));
}

#[test]
fn custom_image_overlay_is_quoted() {
    let mut c = image_config(WatermarkPosition::Center);
    custom(&mut c, 250_000, 750_000);
    let f = build_image_watermark_filter(&c, "/img/logo.png", true).unwrap();
    assert!(f.ends_with(
        "overlay=x='max(0, min(W-w, W*0.250000-w/2))':y='max(0, min(H-h, H*0.750000-h/2))'"
    ));
}
