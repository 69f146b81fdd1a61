//! The data shapes shared by the synthesizer, the orchestrator and the
//! thumbnail cache.
use vstd::prelude::*;
use vstd::string::*;
use crate::text::{push_short_decimal, short_decimal, str_eq};

verus! {

/// Where a preset places the watermark along one axis.
#[derive(Clone, Copy, Debug, PartialEq, Eq, Structural)]
pub enum Anchor {
    Start,
    Middle,
    End,
}

/// Fixed gap between a preset-placed watermark and the frame edge.
pub const PADDING: u32 = 20;

#[derive(Clone, Copy, Debug, PartialEq, Eq, Structural)]
pub enum WatermarkPosition {
    TopLeft,
    TopCenter,
    TopRight,
    CenterLeft,
    Center,
    CenterRight,
    BottomLeft,
    BottomCenter,
    BottomRight,
}

impl WatermarkPosition {
    /// Horizontal anchor of the preset.
    pub open spec fn horizontal(self) -> Anchor {
        match self {
            WatermarkPosition::TopLeft | WatermarkPosition::CenterLeft
            | WatermarkPosition::BottomLeft => Anchor::Start,
            WatermarkPosition::TopCenter | WatermarkPosition::Center
            | WatermarkPosition::BottomCenter => Anchor::Middle,
            _ => Anchor::End,
        }
    }

    /// Vertical anchor of the preset.
    pub open spec fn vertical(self) -> Anchor {
        match self {
            WatermarkPosition::TopLeft | WatermarkPosition::TopCenter
            | WatermarkPosition::TopRight => Anchor::Start,
            WatermarkPosition::CenterLeft | WatermarkPosition::Center
            | WatermarkPosition::CenterRight => Anchor::Middle,
            _ => Anchor::End,
        }
    }

    /// The horizontal and vertical anchors of the preset.
    pub fn anchors(&self) -> (r: (Anchor, Anchor))
        ensures
            r == (self.horizontal(), self.vertical()),
    {
        match self {
            WatermarkPosition::TopLeft => (Anchor::Start, Anchor::Start),
            WatermarkPosition::TopCenter => (Anchor::Middle, Anchor::Start),
            WatermarkPosition::TopRight => (Anchor::End, Anchor::Start),
            WatermarkPosition::CenterLeft => (Anchor::Start, Anchor::Middle),
            WatermarkPosition::Center => (Anchor::Middle, Anchor::Middle),
            WatermarkPosition::CenterRight => (Anchor::End, Anchor::Middle),
            WatermarkPosition::BottomLeft => (Anchor::Start, Anchor::End),
            WatermarkPosition::BottomCenter => (Anchor::Middle, Anchor::End),
            WatermarkPosition::BottomRight => (Anchor::End, Anchor::End),
        }
    }

    /// Pixel offset along one axis of length `canvas` for content of length
    /// `size`.
    pub open spec fn axis_offset(anchor: Anchor, canvas: int, size: int) -> int {
        match anchor {
            Anchor::Start => PADDING as int,
            Anchor::Middle => (canvas - size) / 2,
            Anchor::End => canvas - size - PADDING,
        }
    }

    /// Top-left pixel corner of the watermark for this preset, with a
    /// twenty-pixel margin at the edges and centring in between.
    pub fn to_ffmpeg_coords(
        &self,
        canvas_width: u32,
        canvas_height: u32,
        watermark_width: u32,
        watermark_height: u32,
    ) -> (r: (u32, u32))
        requires
            watermark_width + 2 * PADDING <= canvas_width,
            watermark_height + 2 * PADDING <= canvas_height,
        ensures
            r.0 == Self::axis_offset(self.horizontal(), canvas_width as int, watermark_width as int),
            r.1 == Self::axis_offset(self.vertical(), canvas_height as int, watermark_height as int),
    {
        let padding: u32 = PADDING;
        let max_x = canvas_width - (watermark_width + padding);
        let max_y = canvas_height - (watermark_height + padding);
        let half_x = (canvas_width - watermark_width) / 2;
        let half_y = (canvas_height - watermark_height) / 2;
        let center_x = if half_x < padding { padding } else if half_x > max_x { max_x } else { half_x };
        let center_y = if half_y < padding { padding } else if half_y > max_y { max_y } else { half_y };
        match self {
            WatermarkPosition::TopLeft => (padding, padding),
            WatermarkPosition::TopCenter => (center_x, padding),
            WatermarkPosition::TopRight => (max_x, padding),
            WatermarkPosition::CenterLeft => (padding, center_y),
            WatermarkPosition::Center => (center_x, center_y),
            WatermarkPosition::CenterRight => (max_x, center_y),
            WatermarkPosition::BottomLeft => (padding, max_y),
            WatermarkPosition::BottomCenter => (center_x, max_y),
            WatermarkPosition::BottomRight => (max_x, max_y),
        }
    }
}

#[derive(Clone, Copy, Debug, PartialEq, Eq, Structural)]
pub enum WatermarkType {
    Text,
    Image,
}

/// A point of the frame in fractions of its width and height, each held as
/// a count of millionths (`500_000` is one half).
#[derive(Clone, Copy, Debug, PartialEq, Eq, Structural)]
pub struct CustomPosition {
    pub x: i64,
    pub y: i64,
}

/// One whole, in millionths.
pub const UNIT: i64 = 1_000_000;

/// Whether a fraction in millionths lies in `[0, 1]`.
pub open spec fn in_unit_range(v: i64) -> bool {
    0 <= v <= UNIT
}

/// The message that rejects a custom coordinate.
pub open spec fn coordinate_error(axis: char, v: i64) -> Seq<char> {
    "Custom position "@ + seq![axis] + " must be between 0.0 and 1.0, got "@ + short_decimal(
        v as int,
    )
}

#[derive(Clone, Debug)]
pub struct WatermarkConfig {
    pub watermark_type: WatermarkType,
    pub text: String,
    pub image_path: Option<String>,
    pub position: WatermarkPosition,
    pub opacity: u8,
    pub text_color: String,
    pub font_size: u32,
    pub font_family: String,
    pub image_scale: Option<u32>,
    pub position_mode: Option<String>,
    pub custom_position: Option<CustomPosition>,
}

impl WatermarkConfig {
    /// The position mode is the word `custom`.
    pub open spec fn custom_mode(&self) -> bool {
        self.position_mode matches Some(m) && m@ == "custom"@
    }

    pub fn is_custom_position(&self) -> (r: bool)
        ensures
            r == self.custom_mode(),
    {
        match &self.position_mode {
            Some(mode) => str_eq(mode.as_str(), "custom"),
            None => false,
        }
    }

    /// What checking the custom coordinates gives: the first coordinate
    /// outside `[0, 1]` is named, an absent position passes.
    pub open spec fn custom_position_check(&self) -> Result<(), Seq<char>> {
        match self.custom_position {
            None => Ok(()),
            Some(p) => if !in_unit_range(p.x) {
                Err(coordinate_error('x', p.x))
            } else if !in_unit_range(p.y) {
                Err(coordinate_error('y', p.y))
            } else {
                Ok(())
            },
        }
    }

    pub fn validate_custom_position(&self) -> (r: Result<(), String>)
        ensures
            r matches Ok(_) <==> self.custom_position_check() is Ok,
            r matches Err(e) ==> self.custom_position_check() == Err::<(), Seq<char>>(e@),
    {
        if let Some(custom_pos) = &self.custom_position {
            if custom_pos.x < 0 || custom_pos.x > UNIT {
                return Err(coordinate_message('x', custom_pos.x));
            }
            if custom_pos.y < 0 || custom_pos.y > UNIT {
                return Err(coordinate_message('y', custom_pos.y));
            }
        }
        Ok(())
    }
}

pub(crate) fn coordinate_message(axis: char, v: i64) -> (r: String)
    ensures
        r@ == coordinate_error(axis, v),
{
    let mut s = String::from_str("Custom position ");
    crate::text::push_char(&mut s, axis);
    s.append(" must be between 0.0 and 1.0, got ");
    push_short_decimal(&mut s, v);
    s
}

impl Default for WatermarkConfig {
    fn default() -> (r: Self)
        ensures
            r.watermark_type == WatermarkType::Text,
            r.text@ == "Watermark"@,
            r.image_path is None,
            r.position == WatermarkPosition::BottomRight,
            r.opacity == 80,
            r.text_color@ == "#ffffff"@,
            r.font_size == 48,
            r.font_family@ == "Arial"@,
            r.image_scale == Some(20u32),
            r.position_mode matches Some(m) && m@ == "preset"@,
            r.custom_position is None,
    {
        WatermarkConfig {
            watermark_type: WatermarkType::Text,
            text: String::from_str("Watermark"),
            image_path: None,
            position: WatermarkPosition::BottomRight,
            opacity: 80,
            text_color: String::from_str("#ffffff"),
            font_size: 48,
            font_family: String::from_str("Arial"),
            image_scale: Some(20),
            position_mode: Some(String::from_str("preset")),
            custom_position: None,
        }
    }
}

/// An input file of a batch request.
#[derive(Clone, Debug)]
pub struct FileItem {
    pub path: String,
    pub name: String,
    pub kind: String,
    pub size: Option<u64>,
}

#[derive(Clone, Copy, Debug, PartialEq, Eq, Structural)]
pub enum ProcessingStatus {
    Success,
    Failed,
    Skipped,
}

#[derive(Clone, Debug)]
pub struct FileResult {
    pub input_path: String,
    pub output_path: Option<String>,
    pub status: ProcessingStatus,
    pub error: Option<String>,
}

#[derive(Clone, Debug)]
pub struct BatchResult {
    pub files: Vec<FileResult>,
    pub total: usize,
    pub successful: usize,
    pub failed: usize,
}

#[derive(Clone, Debug)]
pub struct ProgressPayload {
    pub file_path: String,
    pub file_index: usize,
    pub total_files: usize,
    pub status: String,
}

#[derive(Clone, Debug)]
pub struct PresetMetadata {
    pub id: String,
    pub name: String,
    pub description: String,
}

#[derive(Clone, Debug)]
pub struct WatermarkPreset {
    pub name: String,
    pub description: String,
    pub config: WatermarkConfig,
}

/// A cached thumbnail of one video; times are Unix seconds.
#[derive(Clone, Debug)]
pub struct ThumbnailCacheEntry {
    pub video_path: String,
    pub video_mtime: u64,
    pub thumbnail_path: String,
    pub created_at: u64,
    pub last_accessed: u64,
    pub file_size: u64,
}

/// The persisted thumbnail index: each key appears once.
#[derive(Clone, Debug)]
pub struct ThumbnailCache {
    pub entries: Vec<(String, ThumbnailCacheEntry)>,
    pub version: u32,
}

} // verus!
