//! The job description that callers hand in, and the named bundles of
//! fallback values that lie beneath it.

use vstd::prelude::*;
use crate::text::{
    has_text, nonblank, option_text, str_view, text_eq, text_from_option, text_view,
};

verus! {

/// A numeric field of a request, reduced to what argument building reads of
/// it: whether it is finite, whether it is greater than zero, and the integer
/// nearest to it.
#[derive(Debug, Clone, Copy, PartialEq, Eq)]
pub struct Number {
    pub finite: bool,
    pub positive: bool,
    pub rounded: i64,
}

impl Number {
    /// The number that is exactly the integer `value`.
    pub fn whole(value: i64) -> (r: Number)
        ensures
            r.finite,
            r.positive == (value > 0),
            r.rounded == value,
    {
        Number { finite: true, positive: value > 0, rounded: value }
    }
}

/// One free-form option of a visual-mode request.
#[derive(Debug, Clone, Default)]
pub struct ExtraArg {
    pub key: Option<String>,
    pub value: Option<String>,
    pub enabled: Option<bool>,
}

/// A free-form option, with its texts as sequences of characters.
pub struct ExtraOption {
    pub key: Option<Seq<char>>,
    pub value: Option<Seq<char>>,
    pub enabled: Option<bool>,
}

impl View for ExtraArg {
    type V = ExtraOption;

    open spec fn view(&self) -> ExtraOption {
        ExtraOption {
            key: text_view(self.key),
            value: text_view(self.value),
            enabled: self.enabled,
        }
    }
}

/// The free-form options of a list, each with its texts as sequences of
/// characters.
pub open spec fn extra_options(entries: Seq<ExtraArg>) -> Seq<ExtraOption> {
    Seq::new(entries.len(), |i: int| entries[i]@)
}

/// A transcoding request. Every field is optional; an absent field and a
/// blank one mean the same, and which fields are read depends on the mode.
#[derive(Debug, Clone, Default)]
pub struct JobPayload {
    pub mode: Option<String>,
    pub ffmpeg_path: Option<String>,
    pub ffprobe_path: Option<String>,
    pub input_path: Option<String>,
    pub output_path: Option<String>,
    pub raw_args: Option<String>,
    pub preset: Option<String>,
    pub start_time: Option<String>,
    pub duration: Option<String>,
    pub overwrite: Option<bool>,
    pub crf: Option<Number>,
    pub speed_preset: Option<String>,
    pub video_codec: Option<String>,
    pub audio_codec: Option<String>,
    pub pixel_format: Option<String>,
    pub video_bitrate: Option<String>,
    pub audio_bitrate: Option<String>,
    pub audio_quality: Option<String>,
    pub fps: Option<Number>,
    pub scale_width: Option<Number>,
    pub scale_height: Option<Number>,
    pub sample_rate: Option<Number>,
    pub channels: Option<Number>,
    pub threads: Option<Number>,
    pub format: Option<String>,
    pub map_field: Option<String>,
    pub loop_value: Option<String>,
    pub video_filter: Option<String>,
    pub movflags_faststart: Option<bool>,
    pub disable_video: Option<bool>,
    pub disable_audio: Option<bool>,
    pub extra_args: Option<Vec<ExtraArg>>,
}

/// A transcoding request, with its texts as sequences of characters.
pub struct JobRequest {
    pub mode: Option<Seq<char>>,
    pub ffmpeg_path: Option<Seq<char>>,
    pub ffprobe_path: Option<Seq<char>>,
    pub input_path: Option<Seq<char>>,
    pub output_path: Option<Seq<char>>,
    pub raw_args: Option<Seq<char>>,
    pub preset: Option<Seq<char>>,
    pub start_time: Option<Seq<char>>,
    pub duration: Option<Seq<char>>,
    pub overwrite: Option<bool>,
    pub crf: Option<Number>,
    pub speed_preset: Option<Seq<char>>,
    pub video_codec: Option<Seq<char>>,
    pub audio_codec: Option<Seq<char>>,
    pub pixel_format: Option<Seq<char>>,
    pub video_bitrate: Option<Seq<char>>,
    pub audio_bitrate: Option<Seq<char>>,
    pub audio_quality: Option<Seq<char>>,
    pub fps: Option<Number>,
    pub scale_width: Option<Number>,
    pub scale_height: Option<Number>,
    pub sample_rate: Option<Number>,
    pub channels: Option<Number>,
    pub threads: Option<Number>,
    pub format: Option<Seq<char>>,
    pub map_field: Option<Seq<char>>,
    pub loop_value: Option<Seq<char>>,
    pub video_filter: Option<Seq<char>>,
    pub movflags_faststart: Option<bool>,
    pub disable_video: Option<bool>,
    pub disable_audio: Option<bool>,
    pub extra_args: Option<Seq<ExtraOption>>,
}

impl View for JobPayload {
    type V = JobRequest;

    open spec fn view(&self) -> JobRequest {
        JobRequest {
            mode: text_view(self.mode),
            ffmpeg_path: text_view(self.ffmpeg_path),
            ffprobe_path: text_view(self.ffprobe_path),
            input_path: text_view(self.input_path),
            output_path: text_view(self.output_path),
            raw_args: text_view(self.raw_args),
            preset: text_view(self.preset),
            start_time: text_view(self.start_time),
            duration: text_view(self.duration),
            overwrite: self.overwrite,
            crf: self.crf,
            speed_preset: text_view(self.speed_preset),
            video_codec: text_view(self.video_codec),
            audio_codec: text_view(self.audio_codec),
            pixel_format: text_view(self.pixel_format),
            video_bitrate: text_view(self.video_bitrate),
            audio_bitrate: text_view(self.audio_bitrate),
            audio_quality: text_view(self.audio_quality),
            fps: self.fps,
            scale_width: self.scale_width,
            scale_height: self.scale_height,
            sample_rate: self.sample_rate,
            channels: self.channels,
            threads: self.threads,
            format: text_view(self.format),
            map_field: text_view(self.map_field),
            loop_value: text_view(self.loop_value),
            video_filter: text_view(self.video_filter),
            movflags_faststart: self.movflags_faststart,
            disable_video: self.disable_video,
            disable_audio: self.disable_audio,
            extra_args: match self.extra_args {
                Some(entries) => Some(extra_options(entries@)),
                None => None,
            },
        }
    }
}

/// What is needed to propose an output path.
#[derive(Debug, Clone, Default)]
pub struct PickOutputPayload {
    pub input_path: Option<String>,
    pub preset: Option<String>,
}

/// A `PickOutputPayload` with its texts as sequences of characters.
pub struct PickOutputRequest {
    pub input_path: Option<Seq<char>>,
    pub preset: Option<Seq<char>>,
}

impl View for PickOutputPayload {
    type V = PickOutputRequest;

    open spec fn view(&self) -> PickOutputRequest {
        PickOutputRequest {
            input_path: text_view(self.input_path),
            preset: text_view(self.preset),
        }
    }
}

/// The fallback values of one visual preset.
#[derive(Debug, Clone, Copy)]
pub struct VisualPresetDefaults {
    pub video_codec: Option<&'static str>,
    pub speed_preset: Option<&'static str>,
    pub crf: Option<Number>,
    pub audio_codec: Option<&'static str>,
    pub audio_bitrate: Option<&'static str>,
    pub audio_quality: Option<&'static str>,
    pub disable_video: bool,
    pub disable_audio: bool,
    pub fps: Option<Number>,
    pub scale_width: Option<Number>,
    pub scale_height: Option<Number>,
    pub loop_value: Option<&'static str>,
}

/// The fallback values of a preset, with their texts as sequences of
/// characters.
pub struct PresetDefaults {
    pub video_codec: Option<Seq<char>>,
    pub speed_preset: Option<Seq<char>>,
    pub crf: Option<Number>,
    pub audio_codec: Option<Seq<char>>,
    pub audio_bitrate: Option<Seq<char>>,
    pub audio_quality: Option<Seq<char>>,
    pub disable_video: bool,
    pub disable_audio: bool,
    pub fps: Option<Number>,
    pub scale_width: Option<Number>,
    pub scale_height: Option<Number>,
    pub loop_value: Option<Seq<char>>,
}

impl View for VisualPresetDefaults {
    type V = PresetDefaults;

    open spec fn view(&self) -> PresetDefaults {
        PresetDefaults {
            video_codec: str_view(self.video_codec),
            speed_preset: str_view(self.speed_preset),
            crf: self.crf,
            audio_codec: str_view(self.audio_codec),
            audio_bitrate: str_view(self.audio_bitrate),
            audio_quality: str_view(self.audio_quality),
            disable_video: self.disable_video,
            disable_audio: self.disable_audio,
            fps: self.fps,
            scale_width: self.scale_width,
            scale_height: self.scale_height,
            loop_value: str_view(self.loop_value),
        }
    }
}

/// The three ways of building an argument list.
#[derive(Debug, Clone, Copy, PartialEq, Eq)]
pub enum Mode {
    Preset,
    Visual,
    Raw,
}

/// The mode that a request's `mode` text selects: `raw`, `visual`, and the
/// preset mode for anything else.
pub open spec fn mode_of(mode: Seq<char>) -> Mode {
    if mode == "raw"@ {
        Mode::Raw
    } else if mode == "visual"@ {
        Mode::Visual
    } else {
        Mode::Preset
    }
}

/// The preset that a request names, `h264` when it names none.
pub open spec fn preset_name(preset: Option<Seq<char>>) -> Seq<char> {
    let text = option_text(preset);
    if nonblank(text) {
        text
    } else {
        "h264"@
    }
}

/// The integer nearest to a number that is finite and greater than zero.
pub open spec fn positive_round(value: Option<Number>) -> Option<i64> {
    match value {
        Some(n) => if n.finite && n.positive {
            Some(n.rounded)
        } else {
            None
        },
        None => None,
    }
}

/// The first of two optional values that is present.
pub open spec fn first_of(explicit: Option<Number>, fallback: Option<Number>) -> Option<Number> {
    match explicit {
        Some(n) => Some(n),
        None => fallback,
    }
}

/// A bundle that sets nothing.
pub open spec fn no_defaults() -> PresetDefaults {
    PresetDefaults {
        video_codec: None,
        speed_preset: None,
        crf: None,
        audio_codec: None,
        audio_bitrate: None,
        audio_quality: None,
        disable_video: false,
        disable_audio: false,
        fps: None,
        scale_width: None,
        scale_height: None,
        loop_value: None,
    }
}

/// The bundle of a preset name: `h265`, `mp3` and `gif` have their own, and
/// every other name has that of `h264`.
pub open spec fn defaults_of(preset: Seq<char>) -> PresetDefaults {
    if preset == "h265"@ {
        PresetDefaults {
            video_codec: Some("libx265"@),
            speed_preset: Some("medium"@),
            crf: Some(Number { finite: true, positive: true, rounded: 28 }),
            audio_codec: Some("aac"@),
            audio_bitrate: Some("160k"@),
            ..no_defaults()
        }
    } else if preset == "mp3"@ {
        PresetDefaults {
            audio_codec: Some("libmp3lame"@),
            audio_quality: Some("2"@),
            disable_video: true,
            ..no_defaults()
        }
    } else if preset == "gif"@ {
        PresetDefaults {
            disable_audio: true,
            fps: Some(Number { finite: true, positive: true, rounded: 12 }),
            scale_width: Some(Number { finite: true, positive: true, rounded: 480 }),
            loop_value: Some("0"@),
            ..no_defaults()
        }
    } else {
        PresetDefaults {
            video_codec: Some("libx264"@),
            speed_preset: Some("medium"@),
            crf: Some(Number { finite: true, positive: true, rounded: 23 }),
            audio_codec: Some("aac"@),
            audio_bitrate: Some("192k"@),
            ..no_defaults()
        }
    }
}

/// The mode of a request.
pub fn mode_from_text(mode: &str) -> (r: Mode)
    ensures
        r == mode_of(mode@),
{
    if text_eq(mode, "raw") {
        Mode::Raw
    } else if text_eq(mode, "visual") {
        Mode::Visual
    } else {
        Mode::Preset
    }
}

/// The preset that the field names, `h264` when it is absent or blank.
pub fn preset_or_default(preset: &Option<String>) -> (r: String)
    ensures
        r@ == preset_name(text_view(*preset)),
{
    let text = text_from_option(preset);
    if has_text(text.as_str()) {
        text
    } else {
        "h264".to_string()
    }
}

/// The integer nearest to `value`, when `value` is present, finite and
/// greater than zero.
pub fn round_positive(value: Option<Number>) -> (r: Option<i64>)
    ensures
        r == positive_round(value),
{
    match value {
        Some(n) => {
            if !n.finite || !n.positive {
                None
            } else {
                Some(n.rounded)
            }
        },
        None => None,
    }
}

/// The fallback values of the preset `preset`.
pub fn visual_defaults(preset: &str) -> (r: VisualPresetDefaults)
    ensures
        r@ == defaults_of(preset@),
{
    let none = VisualPresetDefaults {
        video_codec: None,
        speed_preset: None,
        crf: None,
        audio_codec: None,
        audio_bitrate: None,
        audio_quality: None,
        disable_video: false,
        disable_audio: false,
        fps: None,
        scale_width: None,
        scale_height: None,
        loop_value: None,
    };
    if text_eq(preset, "h265") {
        VisualPresetDefaults {
            video_codec: Some("libx265"),
            speed_preset: Some("medium"),
            crf: Some(Number { finite: true, positive: true, rounded: 28 }),
            audio_codec: Some("aac"),
            audio_bitrate: Some("160k"),
            ..none
        }
    } else if text_eq(preset, "mp3") {
        VisualPresetDefaults {
            audio_codec: Some("libmp3lame"),
            audio_quality: Some("2"),
            disable_video: true,
            ..none
        }
    } else if text_eq(preset, "gif") {
        VisualPresetDefaults {
            disable_audio: true,
            fps: Some(Number { finite: true, positive: true, rounded: 12 }),
            scale_width: Some(Number { finite: true, positive: true, rounded: 480 }),
            loop_value: Some("0"),
            ..none
        }
    } else {
        VisualPresetDefaults {
            video_codec: Some("libx264"),
            speed_preset: Some("medium"),
            crf: Some(Number { finite: true, positive: true, rounded: 23 }),
            audio_codec: Some("aac"),
            audio_bitrate: Some("192k"),
            ..none
        }
    }
}

} // verus!
