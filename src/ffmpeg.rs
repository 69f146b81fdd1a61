//! Turns a watermark configuration into filter-graph text and the argument
//! list of the external media processor.
use vstd::prelude::*;
use vstd::string::*;
use crate::text::{
    blank, contains_char, str_eq, dec, escaped, fixed, fixed6, is_blank, push_char, push_dec, push_escaped,
    push_fixed, push_fixed6,
};
use crate::paths::{last_component, name_extension, path_extension, simple_path};
use crate::types::{Anchor, WatermarkConfig, WatermarkPosition, WatermarkType};

verus! {

#[derive(Clone, Debug)]
pub enum FfmpegError {
    MissingBinary(String),
    InvalidConfig(String),
    UnsupportedFormat(String),
    Spawn(String),
    Execution(String),
    Path(String),
}

/// The content of an `FfmpegError`.
pub enum FfmpegFault {
    MissingBinary(Seq<char>),
    InvalidConfig(Seq<char>),
    UnsupportedFormat(Seq<char>),
    Spawn(Seq<char>),
    Execution(Seq<char>),
    Path(Seq<char>),
}

impl View for FfmpegError {
    type V = FfmpegFault;

    open spec fn view(&self) -> FfmpegFault {
        match self {
            FfmpegError::MissingBinary(s) => FfmpegFault::MissingBinary(s@),
            FfmpegError::InvalidConfig(s) => FfmpegFault::InvalidConfig(s@),
            FfmpegError::UnsupportedFormat(s) => FfmpegFault::UnsupportedFormat(s@),
            FfmpegError::Spawn(s) => FfmpegFault::Spawn(s@),
            FfmpegError::Execution(s) => FfmpegFault::Execution(s@),
            FfmpegError::Path(s) => FfmpegFault::Path(s@),
        }
    }
}

/// The human-readable text of a fault.
pub open spec fn fault_text(f: FfmpegFault) -> Seq<char> {
    match f {
        FfmpegFault::MissingBinary(s) => "FFmpeg binary not found: "@ + s,
        FfmpegFault::InvalidConfig(s) => "Invalid configuration: "@ + s,
        FfmpegFault::UnsupportedFormat(s) => "Unsupported file format: "@ + s,
        FfmpegFault::Spawn(s) => "Failed to spawn FFmpeg: "@ + s,
        FfmpegFault::Execution(s) => "FFmpeg exited with error: "@ + s,
        FfmpegFault::Path(s) => "Path error: "@ + s,
    }
}

impl FfmpegError {
    /// The human-readable text of the error.
    pub fn message(&self) -> (r: String)
        ensures
            r@ == fault_text(self@),
    {
        let (mut head, detail) = match self {
            FfmpegError::MissingBinary(s) => (String::from_str("FFmpeg binary not found: "), s),
            FfmpegError::InvalidConfig(s) => (String::from_str("Invalid configuration: "), s),
            FfmpegError::UnsupportedFormat(s) => (String::from_str("Unsupported file format: "), s),
            FfmpegError::Spawn(s) => (String::from_str("Failed to spawn FFmpeg: "), s),
            FfmpegError::Execution(s) => (String::from_str("FFmpeg exited with error: "), s),
            FfmpegError::Path(s) => (String::from_str("Path error: "), s),
        };
        head.append(detail.as_str());
        head
    }
}

/// The view of a fallible result.
pub open spec fn outcome<T>(r: Result<T, FfmpegError>) -> Result<T, FfmpegFault> {
    match r {
        Ok(v) => Ok(v),
        Err(e) => Err(e@),
    }
}

/// The view of a fallible text result.
pub open spec fn text_outcome(r: Result<String, FfmpegError>) -> Result<Seq<char>, FfmpegFault> {
    match r {
        Ok(s) => Ok(s@),
        Err(e) => Err(e@),
    }
}

/// The views of a list of strings.
pub open spec fn texts(v: Seq<String>) -> Seq<Seq<char>> {
    v.map_values(|s: String| s@)
}

/// Opacity as thousandths of full alpha, capped at one.
pub open spec fn alpha_thousandths(opacity: u8) -> nat {
    if opacity > 100 { 1000 } else { (opacity as nat) * 10 }
}

/// The processor's colour: a leading `#` becomes `0x`, then `@` and the
/// alpha with three decimals.
pub open spec fn color_text(color: Seq<char>, opacity: u8) -> Seq<char> {
    let base = if color.len() > 0 && color[0] == '#' {
        "0x"@ + color.drop_first()
    } else {
        color
    };
    base + "@"@ + fixed(alpha_thousandths(opacity), 3)
}

pub fn normalize_color(color: &str, opacity: u8) -> (r: String)
    ensures
        r@ == color_text(color@, opacity),
{
    let n = color.unicode_len();
    let mut out = String::new();
    if n > 0 && color.get_char(0) == '#' {
        out.append("0x");
        out.append(color.substring_char(1, n));
    } else {
        out.append(color);
    }
    out.append("@");
    let alpha: u64 = if opacity > 100 { 1000 } else { opacity as u64 * 10 };
    push_fixed(&mut out, alpha, 3);
    assert(out@ =~= color_text(color@, opacity));
    out
}

/// Position expression along one axis: `dim` names the frame length and
/// `size` the content length in the filter language.
pub open spec fn preset_axis_expr(anchor: Anchor, dim: Seq<char>, size: Seq<char>) -> Seq<char> {
    match anchor {
        Anchor::Start => "20"@,
        Anchor::Middle => "("@ + dim + "-"@ + size + ")/2"@,
        Anchor::End => dim + "-"@ + size + "-20"@,
    }
}

/// Custom position along one axis: centred on the fractional point and
/// clamped so the content stays inside the frame.
pub open spec fn custom_axis_expr(fraction: i64, dim: Seq<char>, size: Seq<char>) -> Seq<char> {
    "max(0, min("@ + dim + "-"@ + size + ", "@ + dim + "*"@ + fixed6(fraction as int) + "-"@
        + size + "/2))"@
}

/// The value `custom_axis_expr` denotes, for a frame length `dim` and a
/// content length `size`, with the fraction in millionths.
pub open spec fn custom_offset(fraction: int, dim: int, size: int) -> int {
    let centred = dim * fraction / 1_000_000 - size / 2;
    let upper = if dim - size < centred { dim - size } else { centred };
    if upper < 0 { 0 } else { upper }
}

/// A custom-positioned watermark that fits the frame stays inside it, and
/// at the fraction one half it is centred whenever centring fits.
pub proof fn lemma_custom_offset_inside(fraction: int, dim: int, size: int)
    requires
        0 <= size <= dim,
    ensures
        0 <= custom_offset(fraction, dim, size) <= dim - size,
        ({
            let c = dim * 500_000 / 1_000_000 - size / 2;
            0 <= c <= dim - size ==> custom_offset(500_000, dim, size) == c
        }),
{
}

/// The preset `Center` places content at `((W-w)/2, (H-h)/2)` in the
/// overlay filter and `((w-text_w)/2, (h-text_h)/2)` in drawtext.
pub proof fn lemma_center_expressions(config: WatermarkConfig)
    requires
        config.position == WatermarkPosition::Center,
        !config.custom_mode(),
    ensures
        position_exprs(config, true) == ("(W-w)/2"@, "(H-h)/2"@),
        position_exprs(config, false) == ("(w-text_w)/2"@, "(h-text_h)/2"@),
{
    reveal_strlit("(W-w)/2");
    reveal_strlit("(H-h)/2");
    reveal_strlit("(w-text_w)/2");
    reveal_strlit("(h-text_h)/2");
    reveal_strlit("(");
    reveal_strlit(")/2");
    reveal_strlit("-");
    reveal_strlit("W");
    reveal_strlit("w");
    reveal_strlit("H");
    reveal_strlit("h");
    reveal_strlit("text_w");
    reveal_strlit("text_h");
    assert(position_exprs(config, true).0 =~= "(W-w)/2"@);
    assert(position_exprs(config, true).1 =~= "(H-h)/2"@);
    assert(position_exprs(config, false).0 =~= "(w-text_w)/2"@);
    assert(position_exprs(config, false).1 =~= "(h-text_h)/2"@);
}

/// The (x, y) position expressions of a configuration; `overlay` selects
/// the overlay names (`W`, `w`) over the drawtext names (`w`, `text_w`).
pub open spec fn position_exprs(config: WatermarkConfig, overlay: bool) -> (Seq<char>, Seq<char>) {
    let (dx, sx, dy, sy) = if overlay {
        ("W"@, "w"@, "H"@, "h"@)
    } else {
        ("w"@, "text_w"@, "h"@, "text_h"@)
    };
    if config.custom_mode() && config.custom_position is Some {
        let p = config.custom_position->0;
        (custom_axis_expr(p.x, dx, sx), custom_axis_expr(p.y, dy, sy))
    } else {
        (
            preset_axis_expr(config.position.horizontal(), dx, sx),
            preset_axis_expr(config.position.vertical(), dy, sy),
        )
    }
}

fn push_preset_axis(out: &mut String, anchor: Anchor, dim: &str, size: &str)
    ensures
        final(out)@ == old(out)@ + preset_axis_expr(anchor, dim@, size@),
{
    match anchor {
        Anchor::Start => {
            out.append("20");
        },
        Anchor::Middle => {
            out.append("(");
            out.append(dim);
            out.append("-");
            out.append(size);
            out.append(")/2");
        },
        Anchor::End => {
            out.append(dim);
            out.append("-");
            out.append(size);
            out.append("-20");
        },
    }
    assert(final(out)@ =~= old(out)@ + preset_axis_expr(anchor, dim@, size@));
}

fn push_custom_axis(out: &mut String, fraction: i64, dim: &str, size: &str)
    ensures
        final(out)@ == old(out)@ + custom_axis_expr(fraction, dim@, size@),
{
    out.append("max(0, min(");
    out.append(dim);
    out.append("-");
    out.append(size);
    out.append(", ");
    out.append(dim);
    out.append("*");
    push_fixed6(out, fraction);
    out.append("-");
    out.append(size);
    out.append("/2))");
    assert(final(out)@ =~= old(out)@ + custom_axis_expr(fraction, dim@, size@));
}

fn position_expression(config: &WatermarkConfig, overlay: bool) -> (r: (String, String))
    ensures
        (r.0@, r.1@) == position_exprs(*config, overlay),
{
    let (dx, sx, dy, sy) = if overlay {
        ("W", "w", "H", "h")
    } else {
        ("w", "text_w", "h", "text_h")
    };
    let mut x = String::new();
    let mut y = String::new();
    if config.is_custom_position() {
        if let Some(p) = &config.custom_position {
            push_custom_axis(&mut x, p.x, dx, sx);
            push_custom_axis(&mut y, p.y, dy, sy);
            assert(x@ =~= position_exprs(*config, overlay).0);
            assert(y@ =~= position_exprs(*config, overlay).1);
            return (x, y);
        }
    }
    let (h, v) = config.position.anchors();
    push_preset_axis(&mut x, h, dx, sx);
    push_preset_axis(&mut y, v, dy, sy);
    assert(x@ =~= position_exprs(*config, overlay).0);
    assert(y@ =~= position_exprs(*config, overlay).1);
    (x, y)
}

/// Position expressions for a drawtext filter.
pub fn text_position_expression(config: &WatermarkConfig) -> (r: (String, String))
    ensures
        (r.0@, r.1@) == position_exprs(*config, false),
{
    position_expression(config, false)
}

/// Position expressions for an overlay filter.
pub fn overlay_position_expression(config: &WatermarkConfig) -> (r: (String, String))
    ensures
        (r.0@, r.1@) == position_exprs(*config, true),
{
    position_expression(config, true)
}

/// A filter parameter; values holding a comma are quoted.
pub open spec fn param(name: Seq<char>, value: Seq<char>) -> Seq<char> {
    if value.contains(',') {
        name + "='"@ + value + "'"@
    } else {
        name + "="@ + value
    }
}

fn push_param(out: &mut String, name: &str, value: &str)
    ensures
        final(out)@ == old(out)@ + param(name@, value@),
{
    out.append(name);
    if contains_char(value, ',') {
        out.append("='");
        out.append(value);
        out.append("'");
    } else {
        out.append("=");
        out.append(value);
    }
    assert(final(out)@ =~= old(out)@ + param(name@, value@));
}

/// The drawtext filter of a text watermark.
pub open spec fn text_filter(config: WatermarkConfig) -> Result<Seq<char>, FfmpegFault> {
    if is_blank(config.text@) {
        Err(FfmpegFault::InvalidConfig("text watermark requires non-empty text"@))
    } else {
        let (x, y) = position_exprs(config, false);
        Ok(
            "drawtext=text='"@ + escaped(config.text@) + "':font='"@ + escaped(
                config.font_family@,
            ) + "':fontsize="@ + dec(config.font_size as nat) + ":fontcolor="@ + color_text(
                config.text_color@,
                config.opacity,
            ) + ":shadowcolor=black@0.5:shadowx=2:shadowy=2:"@ + param("x"@, x) + ":"@ + param(
                "y"@,
                y,
            ),
        )
    }
}

pub fn build_text_watermark_filter(config: &WatermarkConfig, _is_video: bool) -> (r: Result<
    String,
    FfmpegError,
>)
    ensures
        text_outcome(r) == text_filter(*config),
{
    if blank(config.text.as_str()) {
        return Err(
            FfmpegError::InvalidConfig(String::from_str("text watermark requires non-empty text")),
        );
    }
    let font_color = normalize_color(config.text_color.as_str(), config.opacity);
    let (x_expr, y_expr) = text_position_expression(config);
    let mut f = String::from_str("drawtext=text='");
    push_escaped(&mut f, config.text.as_str());
    f.append("':font='");
    push_escaped(&mut f, config.font_family.as_str());
    f.append("':fontsize=");
    push_dec(&mut f, config.font_size as u64);
    f.append(":fontcolor=");
    f.append(font_color.as_str());
    f.append(":shadowcolor=black@0.5:shadowx=2:shadowy=2:");
    push_param(&mut f, "x", x_expr.as_str());
    f.append(":");
    push_param(&mut f, "y", y_expr.as_str());
    assert(f@ =~= text_filter(*config)->Ok_0);
    Ok(f)
}

/// Scale, fade and overlay filter graph of an image watermark; the image
/// must be named and present. The watermark (input 1) is scaled against the
/// base frame (input 0) to the given percentage of its width, keeping its own
/// aspect ratio, and placed with the same quoting rule as drawtext.
pub open spec fn image_filter(config: WatermarkConfig, image: Seq<char>, image_exists: bool) -> Result<
    Seq<char>,
    FfmpegFault,
> {
    if is_blank(image) {
        Err(FfmpegFault::InvalidConfig("image watermark requires an image path"@))
    } else if !image_exists {
        Err(FfmpegFault::InvalidConfig("watermark image not found at "@ + image))
    } else {
        let (x, y) = position_exprs(config, true);
        let scale: nat = match config.image_scale {
            Some(s) => s as nat,
            None => 20,
        };
        Ok(
            "[1:v][0:v]scale2ref=w=iw*"@ + dec(scale)
                + "/100:h=ow/mdar[wm][base];[wm]format=rgba,colorchannelmixer=aa="@ + fixed(
                alpha_thousandths(config.opacity),
                3,
            ) + "[wm_alpha];[base][wm_alpha]overlay="@ + param("x"@, x) + ":"@ + param("y"@, y),
        )
    }
}

/// `image_exists` reports whether `watermark_image_path` names a file on
/// disk.
pub fn build_image_watermark_filter(
    config: &WatermarkConfig,
    watermark_image_path: &str,
    image_exists: bool,
) -> (r: Result<String, FfmpegError>)
    ensures
        text_outcome(r) == image_filter(*config, watermark_image_path@, image_exists),
{
    if blank(watermark_image_path) {
        return Err(
            FfmpegError::InvalidConfig(String::from_str("image watermark requires an image path")),
        );
    }
    if !image_exists {
        let mut m = String::from_str("watermark image not found at ");
        m.append(watermark_image_path);
        return Err(FfmpegError::InvalidConfig(m));
    }
    let (x_expr, y_expr) = overlay_position_expression(config);
    let scale: u32 = match config.image_scale {
        Some(s) => s,
        None => 20,
    };
    let alpha: u64 = if config.opacity > 100 { 1000 } else { config.opacity as u64 * 10 };
    let mut f = String::from_str("[1:v][0:v]scale2ref=w=iw*");
    push_dec(&mut f, scale as u64);
    f.append("/100:h=ow/mdar[wm][base];[wm]format=rgba,colorchannelmixer=aa=");
    push_fixed(&mut f, alpha, 3);
    f.append("[wm_alpha];[base][wm_alpha]overlay=");
    push_param(&mut f, "x", x_expr.as_str());
    f.append(":");
    push_param(&mut f, "y", y_expr.as_str());
    assert(f@ =~= image_filter(*config, watermark_image_path@, image_exists)->Ok_0);
    Ok(f)
}

/// The argument list for watermarking `input` into `output`.
pub open spec fn command_args(
    input: Seq<char>,
    output: Seq<char>,
    config: WatermarkConfig,
    is_video: bool,
    image_exists: bool,
) -> Result<Seq<Seq<char>>, FfmpegFault> {
    let tail: Seq<Seq<char>> = if is_video {
        seq!["-c:a"@, "copy"@, "-y"@, output]
    } else {
        seq!["-frames:v"@, "1"@, "-y"@, output]
    };
    match config.watermark_type {
        WatermarkType::Image => match config.image_path {
            None => Err(FfmpegFault::InvalidConfig("image watermark requires image_path"@)),
            Some(p) => match image_filter(config, p@, image_exists) {
                Err(e) => Err(e),
                Ok(f) => Ok(seq!["-i"@, input, "-i"@, p@, "-filter_complex"@, f] + tail),
            },
        },
        WatermarkType::Text => match text_filter(config) {
            Err(e) => Err(e),
            Ok(f) => Ok(seq!["-i"@, input, "-vf"@, f] + tail),
        },
    }
}

/// The view of a fallible argument list.
pub open spec fn args_outcome(r: Result<Vec<String>, FfmpegError>) -> Result<Seq<Seq<char>>, FfmpegFault> {
    match r {
        Ok(v) => Ok(texts(v@)),
        Err(e) => Err(e@),
    }
}

fn push_text(v: &mut Vec<String>, s: &str)
    ensures
        texts(final(v)@) == texts(old(v)@).push(s@),
{
    v.push(String::from_str(s));
    assert(texts(final(v)@) =~= texts(old(v)@).push(s@));
}

/// Arguments for the media processor. `image_exists` reports whether the
/// configured watermark image is on disk; the presence of the processor
/// itself is checked by the caller.
pub fn build_ffmpeg_command(
    input_path: &str,
    output_path: &str,
    config: &WatermarkConfig,
    is_video: bool,
    image_exists: bool,
) -> (r: Result<Vec<String>, FfmpegError>)
    ensures
        args_outcome(r) == command_args(input_path@, output_path@, *config, is_video, image_exists),
{
    let mut args: Vec<String> = Vec::new();
    push_text(&mut args, "-i");
    push_text(&mut args, input_path);
    match config.watermark_type {
        WatermarkType::Image => {
            let image_path = match &config.image_path {
                Some(p) => p,
                None => {
                    return Err(
                        FfmpegError::InvalidConfig(
                            String::from_str("image watermark requires image_path"),
                        ),
                    );
                },
            };
            let filter = match build_image_watermark_filter(config, image_path.as_str(), image_exists) {
                Ok(f) => f,
                Err(e) => {
                    return Err(e);
                },
            };
            push_text(&mut args, "-i");
            push_text(&mut args, image_path.as_str());
            push_text(&mut args, "-filter_complex");
            push_text(&mut args, filter.as_str());
        },
        WatermarkType::Text => {
            let filter = match build_text_watermark_filter(config, is_video) {
                Ok(f) => f,
                Err(e) => {
                    return Err(e);
                },
            };
            push_text(&mut args, "-vf");
            push_text(&mut args, filter.as_str());
        },
    }
    if is_video {
        push_text(&mut args, "-c:a");
        push_text(&mut args, "copy");
    } else {
        push_text(&mut args, "-frames:v");
        push_text(&mut args, "1");
    }
    push_text(&mut args, "-y");
    push_text(&mut args, output_path);
    assert(texts(args@) =~= command_args(input_path@, output_path@, *config, is_video, image_exists)->Ok_0);
    Ok(args)
}

/// ASCII upper-case letters become lower case; other characters stay.
pub open spec fn lower_char(c: char) -> char {
    if 'A' <= c && c <= 'Z' {
        ((c as u32) + 32) as char
    } else {
        c
    }
}

pub open spec fn ascii_lower(s: Seq<char>) -> Seq<char> {
    s.map_values(|c: char| lower_char(c))
}

pub open spec fn is_image_extension(e: Seq<char>) -> bool {
    e == "png"@ || e == "jpg"@ || e == "jpeg"@ || e == "gif"@ || e == "bmp"@ || e == "webp"@
}

pub open spec fn is_video_extension(e: Seq<char>) -> bool {
    e == "mp4"@ || e == "avi"@ || e == "mov"@ || e == "mkv"@ || e == "webm"@ || e == "flv"@
}

/// Whether a file with this extension is a video (`true`) or a still image
/// (`false`); case is ignored.
pub open spec fn file_kind(ext: Option<Seq<char>>) -> Result<bool, FfmpegFault> {
    match ext {
        None => Err(FfmpegFault::UnsupportedFormat("missing file extension"@)),
        Some(e) => {
            let l = ascii_lower(e);
            if is_image_extension(l) {
                Ok(false)
            } else if is_video_extension(l) {
                Ok(true)
            } else {
                Err(FfmpegFault::UnsupportedFormat(l))
            }
        },
    }
}

fn to_ascii_lower(s: &str) -> (r: String)
    ensures
        r@ == ascii_lower(s@),
{
    let n = s.unicode_len();
    let mut out = String::new();
    let mut i: usize = 0;
    while i < n
        invariant
            n == s@.len(),
            i <= n,
            out@ == ascii_lower(s@.subrange(0, i as int)),
        decreases n - i,
    {
        let c = s.get_char(i);
        let l = if 'A' <= c && c <= 'Z' {
            ((c as u8) + 32) as char
        } else {
            c
        };
        push_char(&mut out, l);
        i = i + 1;
        assert(out@ =~= ascii_lower(s@.subrange(0, i as int)));
    }
    assert(s@.subrange(0, n as int) =~= s@);
    out
}

/// Classifies a file extension by the allow-lists.
pub fn classify_extension(extension: Option<&str>) -> (r: Result<bool, FfmpegError>)
    ensures
        outcome(r) == file_kind(
            match extension {
                Some(e) => Some(e@),
                None => None,
            },
        ),
{
    let extension = match extension {
        Some(e) => e,
        None => {
            return Err(FfmpegError::UnsupportedFormat(String::from_str("missing file extension")));
        },
    };
    let ext = to_ascii_lower(extension);
    let e = ext.as_str();
    if str_eq(e, "png") || str_eq(e, "jpg") || str_eq(e, "jpeg") || str_eq(e, "gif") || str_eq(
        e,
        "bmp",
    ) || str_eq(e, "webp") {
        Ok(false)
    } else if str_eq(e, "mp4") || str_eq(e, "avi") || str_eq(e, "mov") || str_eq(e, "mkv")
        || str_eq(e, "webm") || str_eq(e, "flv") {
        Ok(true)
    } else {
        Err(FfmpegError::UnsupportedFormat(ext))
    }
}

/// Whether the file at `path` is a video (`true`) or an image (`false`),
/// by its extension.
pub fn detect_file_type(path: &str) -> (r: Result<bool, FfmpegError>)
    ensures
        simple_path(path@) ==> outcome(r) == file_kind(name_extension(last_component(path@))),
        r matches Err(e) ==> e is UnsupportedFormat,
{
    let ext = path_extension(path);
    match &ext {
        Some(e) => classify_extension(Some(e.as_str())),
        None => classify_extension(None),
    }
}

/// Arguments that extract one frame of a video as an image. `video_exists`
/// reports whether the video is on disk.
pub fn thumbnail_extraction_args(video_path: &str, output_path: &str, video_exists: bool) -> (r:
    Result<Vec<String>, FfmpegError>)
    ensures
        !video_exists ==> args_outcome(r) == Err::<Seq<Seq<char>>, FfmpegFault>(
            FfmpegFault::Path("Video file not found: "@ + video_path@),
        ),
        video_exists && simple_path(video_path@) && file_kind(
            name_extension(last_component(video_path@)),
        ) is Err
            ==> args_outcome(r) == Err::<Seq<Seq<char>>, FfmpegFault>(
            file_kind(name_extension(last_component(video_path@)))->Err_0,
        ),
        video_exists && simple_path(video_path@) && file_kind(
            name_extension(last_component(video_path@)),
        ) == Ok::<
            bool,
            FfmpegFault,
        >(false) ==> args_outcome(r) == Err::<Seq<Seq<char>>, FfmpegFault>(
            FfmpegFault::UnsupportedFormat("File is not a video"@),
        ),
        video_exists && simple_path(video_path@) && file_kind(
            name_extension(last_component(video_path@)),
        ) == Ok::<bool, FfmpegFault>(true) ==> r is Ok,
        r matches Ok(v) ==> video_exists && texts(v@) == seq![
            "-i"@,
            video_path@,
            "-frames:v"@,
            "1"@,
            "-q:v"@,
            "3"@,
            "-y"@,
            output_path@,
        ],
{
    if !video_exists {
        let mut m = String::from_str("Video file not found: ");
        m.append(video_path);
        return Err(FfmpegError::Path(m));
    }
    let is_video = match detect_file_type(video_path) {
        Ok(v) => v,
        Err(e) => {
            return Err(e);
        },
    };
    if !is_video {
        return Err(FfmpegError::UnsupportedFormat(String::from_str("File is not a video")));
    }
    let mut args: Vec<String> = Vec::new();
    push_text(&mut args, "-i");
    push_text(&mut args, video_path);
    push_text(&mut args, "-frames:v");
    push_text(&mut args, "1");
    push_text(&mut args, "-q:v");
    push_text(&mut args, "3");
    push_text(&mut args, "-y");
    push_text(&mut args, output_path);
    assert(texts(args@) =~= seq![
        "-i"@,
        video_path@,
        "-frames:v"@,
        "1"@,
        "-q:v"@,
        "3"@,
        "-y"@,
        output_path@,
    ]);
    Ok(args)
}

/// What running the media processor gave.
pub enum RunReport {
    /// The processor could not be located or prepared.
    Unavailable(String),
    /// The process could not be started or waited on.
    LaunchFailed(String),
    /// The process ran to completion.
    Exited { success: bool, stdout: String, stderr: String },
}

/// Maps a run of the processor to its output text or an error: a run that
/// never started is a spawn failure, a non-zero exit carries its
/// diagnostic output.
pub fn interpret_run(report: RunReport) -> (r: Result<String, FfmpegError>)
    ensures
        match report {
            RunReport::Unavailable(m) => text_outcome(r) == Err::<Seq<char>, FfmpegFault>(
                FfmpegFault::Spawn(m@),
            ),
            RunReport::LaunchFailed(m) => text_outcome(r) == Err::<Seq<char>, FfmpegFault>(
                FfmpegFault::Spawn(m@),
            ),
            RunReport::Exited { success, stdout, stderr } => if success {
                text_outcome(r) == Ok::<Seq<char>, FfmpegFault>(stdout@)
            } else {
                text_outcome(r) == Err::<Seq<char>, FfmpegFault>(FfmpegFault::Execution(stderr@))
            },
        },
{
    match report {
        RunReport::Unavailable(m) => Err(FfmpegError::Spawn(m)),
        RunReport::LaunchFailed(m) => Err(FfmpegError::Spawn(m)),
        RunReport::Exited { success, stdout, stderr } => if success {
            Ok(stdout)
        } else {
            Err(FfmpegError::Execution(stderr))
        },
    }
}

} // verus!
