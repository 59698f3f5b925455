//! Building the argument list of a job.
//!
//! Each mode has a spec function that gives the argument list as a sequence
//! of texts, or the failure; the executable builders are proved to return
//! exactly that. The input and output paths are parameters of their own, so
//! that a caller can build for paths other than the request's.

use vstd::prelude::*;
use crate::request::{
    defaults_of, extra_options, first_of, mode_from_text, mode_of, positive_round, preset_name,
    preset_or_default, round_positive, visual_defaults, ExtraArg, ExtraOption, JobPayload,
    JobRequest, Mode, Number, PresetDefaults, VisualPresetDefaults,
};
use crate::text::{
    any_contains, chars_of, contains, contains_text, decimal, decimal_text, has_text, is_space,
    join_texts, joined, lemma_concat_assoc, lemma_contains_transitive,
    lemma_replaced_without_occurrence, nonblank, occurs_at, option_text, replace_text, replaced,
    str_view, text_eq, text_from_option, text_view, texts,
};
use crate::tokenizer::{
    lemma_pattern_reaches_token, lemma_quote_free_tokens_are_pieces, plain_text, quote_free,
    split_command_line, tokenized, ParseError,
};

verus! {

/// The required field that a request lacks.
#[derive(Debug, Clone, Copy, PartialEq, Eq)]
pub enum MissingField {
    /// The input path, the output path, or both.
    Paths,
    /// The command template of raw mode.
    RawArgs,
    /// The input path, which the template refers to.
    InputPath,
    /// The output path, which the template refers to.
    OutputPath,
}

/// Why no argument list could be built.
#[derive(Debug, Clone, PartialEq, Eq)]
pub enum BuildError {
    MissingField(MissingField),
    /// The preset named is none of the known ones.
    UnsupportedPreset(String),
    /// The command template could not be split.
    Tokenize(ParseError),
}

/// A `BuildError` with its text as a sequence of characters.
pub enum Failure {
    MissingField(MissingField),
    UnsupportedPreset(Seq<char>),
    Tokenize(ParseError),
}

impl View for BuildError {
    type V = Failure;

    open spec fn view(&self) -> Failure {
        match self {
            BuildError::MissingField(field) => Failure::MissingField(*field),
            BuildError::UnsupportedPreset(name) => Failure::UnsupportedPreset(name@),
            BuildError::Tokenize(e) => Failure::Tokenize(*e),
        }
    }
}

/// The message of a failure, as the user reads it.
pub open spec fn failure_message(failure: Failure) -> Seq<char> {
    match failure {
        Failure::MissingField(MissingField::Paths) => "inputPath and outputPath are required"@,
        Failure::MissingField(MissingField::RawArgs) => "rawArgs is required for raw mode"@,
        Failure::MissingField(MissingField::InputPath) =>
            "inputPath is required because raw args contain {input}"@,
        Failure::MissingField(MissingField::OutputPath) =>
            "outputPath is required because raw args contain {output}"@,
        Failure::UnsupportedPreset(name) => "Unsupported preset: "@ + name,
        Failure::Tokenize(e) => e.message_text(),
    }
}

impl BuildError {
    /// The message shown to the user.
    pub fn message(&self) -> (r: String)
        ensures
            r@ == failure_message(self@),
    {
        match self {
            BuildError::MissingField(MissingField::Paths) =>
                "inputPath and outputPath are required".to_string(),
            BuildError::MissingField(MissingField::RawArgs) =>
                "rawArgs is required for raw mode".to_string(),
            BuildError::MissingField(MissingField::InputPath) =>
                "inputPath is required because raw args contain {input}".to_string(),
            BuildError::MissingField(MissingField::OutputPath) =>
                "outputPath is required because raw args contain {output}".to_string(),
            BuildError::UnsupportedPreset(name) => {
                let mut text = "Unsupported preset: ".to_string();
                text.append(name.as_str());
                text
            },
            BuildError::Tokenize(e) => e.message(),
        }
    }
}

/// What an argument list or its failure looks like in specifications.
pub type Built = Result<Seq<Seq<char>>, Failure>;

/// The placeholder of the input path in a command template.
pub open spec fn input_placeholder() -> Seq<char> {
    "{input}"@
}

/// The placeholder of the output path in a command template.
pub open spec fn output_placeholder() -> Seq<char> {
    "{output}"@
}

/// The trim flags: a seek start and a duration limit, each only when its
/// text is not blank.
pub open spec fn trim_args(start_time: Seq<char>, duration: Seq<char>) -> Seq<Seq<char>> {
    (if nonblank(start_time) {
        seq!["-ss"@, start_time]
    } else {
        Seq::<Seq<char>>::empty()
    }) + (if nonblank(duration) {
        seq!["-t"@, duration]
    } else {
        Seq::<Seq<char>>::empty()
    })
}

/// A flag with the text of an optional field, when that text is not blank.
pub open spec fn option_args(key: Seq<char>, value: Option<Seq<char>>) -> Seq<Seq<char>> {
    let text = option_text(value);
    if nonblank(text) {
        seq![key, text]
    } else {
        Seq::empty()
    }
}

/// The explicit text of a field when it is not blank, else the fallback, else
/// the empty text.
pub open spec fn resolved(explicit: Option<Seq<char>>, fallback: Option<Seq<char>>) -> Seq<char> {
    let text = option_text(explicit);
    if nonblank(text) {
        text
    } else {
        match fallback {
            Some(d) => d,
            None => Seq::empty(),
        }
    }
}

/// Whether the video stream is dropped.
pub open spec fn video_disabled(job: JobRequest, d: PresetDefaults) -> bool {
    job.disable_video == Some(true) || d.disable_video || resolved(job.video_codec, d.video_codec)
        == "none"@
}

/// Whether the audio stream is dropped.
pub open spec fn audio_disabled(job: JobRequest, d: PresetDefaults) -> bool {
    job.disable_audio == Some(true) || d.disable_audio || resolved(job.audio_codec, d.audio_codec)
        == "none"@
}

/// The quality flag of the video stream: the rounded constant rate factor,
/// when it is finite and the stream is not copied.
pub open spec fn crf_args(crf: Option<Number>, codec: Seq<char>) -> Seq<Seq<char>> {
    match crf {
        Some(n) => if n.finite && codec != "copy"@ {
            seq!["-crf"@, decimal(n.rounded as int)]
        } else {
            Seq::empty()
        },
        None => Seq::empty(),
    }
}

/// The flags of the video stream.
pub open spec fn video_args(job: JobRequest, d: PresetDefaults) -> Seq<Seq<char>> {
    let codec = resolved(job.video_codec, d.video_codec);
    let speed = resolved(job.speed_preset, d.speed_preset);
    if video_disabled(job, d) {
        seq!["-vn"@]
    } else {
        (if nonblank(codec) && codec != "auto"@ {
            seq!["-c:v"@, codec]
        } else {
            Seq::<Seq<char>>::empty()
        }) + (if nonblank(speed) && codec != "copy"@ {
            seq!["-preset"@, speed]
        } else {
            Seq::<Seq<char>>::empty()
        }) + crf_args(first_of(job.crf, d.crf), codec) + option_args("-b:v"@, job.video_bitrate)
    }
}

/// A flag with the decimal text of a number, when the number is finite and
/// greater than zero.
pub open spec fn count_args(key: Seq<char>, value: Option<Number>) -> Seq<Seq<char>> {
    match positive_round(value) {
        Some(n) => seq![key, decimal(n as int)],
        None => Seq::empty(),
    }
}

/// A flag with a text, when the text is not blank.
pub open spec fn text_args(key: Seq<char>, text: Seq<char>) -> Seq<Seq<char>> {
    if nonblank(text) {
        seq![key, text]
    } else {
        Seq::empty()
    }
}

/// The flags of the audio stream.
pub open spec fn audio_args(job: JobRequest, d: PresetDefaults) -> Seq<Seq<char>> {
    let codec = resolved(job.audio_codec, d.audio_codec);
    if audio_disabled(job, d) {
        seq!["-an"@]
    } else {
        (if nonblank(codec) && codec != "auto"@ {
            seq!["-c:a"@, codec]
        } else {
            Seq::<Seq<char>>::empty()
        }) + text_args("-b:a"@, resolved(job.audio_bitrate, d.audio_bitrate)) + text_args(
            "-q:a"@,
            resolved(job.audio_quality, d.audio_quality),
        ) + count_args("-ar"@, job.sample_rate) + count_args("-ac"@, job.channels)
    }
}

/// A side of the scaled picture: the rounded number when it is finite and
/// greater than zero, and -1, which keeps the aspect ratio, otherwise.
pub open spec fn scale_side(value: Option<Number>) -> int {
    match positive_round(value) {
        Some(n) => n as int,
        None => -1,
    }
}

/// The text of the scaling filter.
pub open spec fn scale_text(width: Option<Number>, height: Option<Number>) -> Seq<char> {
    "scale="@ + decimal(scale_side(width)) + ":"@ + decimal(scale_side(height))
        + ":flags=lanczos"@
}

/// The filters of a visual request, in order: frame rate, scaling, and the
/// filter text that the user gave.
pub open spec fn filters(job: JobRequest, d: PresetDefaults) -> Seq<Seq<char>> {
    let width = first_of(job.scale_width, d.scale_width);
    let height = first_of(job.scale_height, d.scale_height);
    let given = option_text(job.video_filter);
    (match positive_round(first_of(job.fps, d.fps)) {
        Some(n) => seq!["fps="@ + decimal(n as int)],
        None => Seq::<Seq<char>>::empty(),
    }) + (if width is Some || height is Some {
        seq![scale_text(width, height)]
    } else {
        Seq::<Seq<char>>::empty()
    }) + (if nonblank(given) {
        seq![given]
    } else {
        Seq::<Seq<char>>::empty()
    })
}

/// The one filter flag that carries all filters, joined by commas.
pub open spec fn filter_args(job: JobRequest, d: PresetDefaults) -> Seq<Seq<char>> {
    if filters(job, d).len() > 0 {
        seq!["-vf"@, joined(filters(job, d), ","@)]
    } else {
        Seq::empty()
    }
}

/// The flag of a free-form option: its key, with a dash in front unless it
/// has one.
pub open spec fn extra_flag(key: Seq<char>) -> Seq<char> {
    if key.len() > 0 && key[0] == '-' {
        key
    } else {
        "-"@ + key
    }
}

/// What one free-form option adds: nothing when it is switched off or has no
/// key, else its flag and, when it is not blank, its value.
pub open spec fn entry_args(entry: ExtraOption) -> Seq<Seq<char>> {
    let key = option_text(entry.key);
    let value = option_text(entry.value);
    if entry.enabled == Some(false) || !nonblank(key) {
        Seq::empty()
    } else if nonblank(value) {
        seq![extra_flag(key), value]
    } else {
        seq![extra_flag(key)]
    }
}

/// What the free-form options add, in their order.
pub open spec fn extra_args(entries: Seq<ExtraOption>) -> Seq<Seq<char>>
    decreases entries.len(),
{
    if entries.len() == 0 {
        Seq::empty()
    } else {
        extra_args(entries.drop_last()) + entry_args(entries.last())
    }
}

/// The free-form options of a request.
pub open spec fn extras_of(job: JobRequest) -> Seq<Seq<char>> {
    match job.extra_args {
        Some(entries) => extra_args(entries),
        None => Seq::empty(),
    }
}

/// The flags that follow the streams in visual mode, up to the output path.
pub open spec fn tail_args(job: JobRequest, d: PresetDefaults) -> Seq<Seq<char>> {
    filter_args(job, d) + text_args("-loop"@, resolved(job.loop_value, d.loop_value))
        + option_args("-pix_fmt"@, job.pixel_format) + (if job.movflags_faststart == Some(true) {
        seq!["-movflags"@, "+faststart"@]
    } else {
        Seq::<Seq<char>>::empty()
    }) + count_args("-threads"@, job.threads) + option_args("-f"@, job.format) + option_args(
        "-map"@,
        job.map_field,
    ) + extras_of(job)
}

/// The flags that precede the streams: overwrite, trim window, input.
pub open spec fn head_args(overwrite: bool, job: JobRequest, input: Seq<char>) -> Seq<Seq<char>> {
    (if overwrite {
        seq!["-y"@]
    } else {
        Seq::<Seq<char>>::empty()
    }) + trim_args(option_text(job.start_time), option_text(job.duration)) + seq!["-i"@, input]
}

/// The argument list of a visual request over the bundle `d`.
pub open spec fn visual_args_over(
    job: JobRequest,
    input: Seq<char>,
    output: Seq<char>,
    d: PresetDefaults,
) -> Built {
    if !nonblank(input) || !nonblank(output) {
        Err(Failure::MissingField(MissingField::Paths))
    } else {
        Ok(
            head_args(job.overwrite != Some(false), job, input) + video_args(job, d) + audio_args(
                job,
                d,
            ) + tail_args(job, d) + seq![output],
        )
    }
}

/// The argument list of a visual request: that over the bundle of the preset
/// it names.
pub open spec fn visual_args_for(job: JobRequest, input: Seq<char>, output: Seq<char>) -> Built {
    visual_args_over(job, input, output, defaults_of(preset_name(job.preset)))
}

/// The rounded constant rate factor of a preset request, `fallback` when the
/// request has none.
pub open spec fn preset_crf(crf: Option<Number>, fallback: int) -> int {
    match crf {
        Some(n) => n.rounded as int,
        None => fallback,
    }
}

/// A whole number of a preset request: the rounded field when it is finite
/// and greater than zero, else `fallback`.
pub open spec fn preset_count(value: Option<Number>, fallback: int) -> int {
    match positive_round(value) {
        Some(n) => n as int,
        None => fallback,
    }
}

/// Whether `preset` is one of the four known presets.
pub open spec fn known_preset(preset: Seq<char>) -> bool {
    preset == "h264"@ || preset == "h265"@ || preset == "mp3"@ || preset == "gif"@
}

/// The fixed flags of a known preset.
pub open spec fn preset_bundle(job: JobRequest, preset: Seq<char>) -> Seq<Seq<char>> {
    if preset == "h264"@ {
        seq![
            "-c:v"@,
            "libx264"@,
            "-preset"@,
            "medium"@,
            "-crf"@,
            decimal(preset_crf(job.crf, 23)),
            "-c:a"@,
            "aac"@,
            "-b:a"@,
            "192k"@,
        ]
    } else if preset == "h265"@ {
        seq![
            "-c:v"@,
            "libx265"@,
            "-preset"@,
            "medium"@,
            "-crf"@,
            decimal(preset_crf(job.crf, 28)),
            "-c:a"@,
            "aac"@,
            "-b:a"@,
            "160k"@,
        ]
    } else if preset == "mp3"@ {
        seq!["-vn"@, "-c:a"@, "libmp3lame"@, "-q:a"@, "2"@]
    } else {
        seq![
            "-vf"@,
            "fps="@ + decimal(preset_count(job.fps, 12)) + ",scale="@ + decimal(
                preset_count(job.scale_width, 480),
            ) + ":-1:flags=lanczos"@,
            "-loop"@,
            "0"@,
        ]
    }
}

/// The argument list of a preset request.
pub open spec fn preset_args_for(job: JobRequest, input: Seq<char>, output: Seq<char>) -> Built {
    let preset = preset_name(job.preset);
    if !nonblank(input) || !nonblank(output) {
        Err(Failure::MissingField(MissingField::Paths))
    } else if !known_preset(preset) {
        Err(Failure::UnsupportedPreset(preset))
    } else {
        Ok(head_args(true, job, input) + preset_bundle(job, preset) + seq![output])
    }
}

/// A token with the input placeholder replaced by `input`, and then the
/// output placeholder by `output`.
pub open spec fn substituted(token: Seq<char>, input: Seq<char>, output: Seq<char>) -> Seq<char> {
    replaced(replaced(token, input_placeholder(), input), output_placeholder(), output)
}

/// Every token with the placeholders replaced.
pub open spec fn substituted_all(
    tokens: Seq<Seq<char>>,
    input: Seq<char>,
    output: Seq<char>,
) -> Seq<Seq<char>> {
    Seq::new(tokens.len(), |i: int| substituted(tokens[i], input, output))
}

/// The argument list of the command template `raw`.
pub open spec fn raw_args_of(raw: Seq<char>, input: Seq<char>, output: Seq<char>) -> Built {
    if !nonblank(raw) {
        Err(Failure::MissingField(MissingField::RawArgs))
    } else {
        match tokenized(raw) {
            Err(e) => Err(Failure::Tokenize(e)),
            Ok(tokens) => if any_contains(tokens, input_placeholder()) && !nonblank(input) {
                Err(Failure::MissingField(MissingField::InputPath))
            } else if any_contains(tokens, output_placeholder()) && !nonblank(output) {
                Err(Failure::MissingField(MissingField::OutputPath))
            } else {
                Ok(substituted_all(tokens, input, output))
            },
        }
    }
}

/// The argument list of a raw request.
pub open spec fn raw_args_for(job: JobRequest, input: Seq<char>, output: Seq<char>) -> Built {
    raw_args_of(option_text(job.raw_args), input, output)
}

/// The argument list of a request, by its mode, for the given paths.
pub open spec fn ffmpeg_args_for(job: JobRequest, input: Seq<char>, output: Seq<char>) -> Built {
    match mode_of(option_text(job.mode)) {
        Mode::Raw => raw_args_for(job, input, output),
        Mode::Visual => visual_args_for(job, input, output),
        Mode::Preset => preset_args_for(job, input, output),
    }
}

/// The argument list of a request, for its own paths.
pub open spec fn ffmpeg_args(job: JobRequest) -> Built {
    ffmpeg_args_for(job, option_text(job.input_path), option_text(job.output_path))
}

/// Whether what a builder returned is what the specification gives.
pub open spec fn built_as(r: Result<Vec<String>, BuildError>, expected: Built) -> bool {
    match r {
        Ok(args) => expected == Ok::<Seq<Seq<char>>, Failure>(texts(args@)),
        Err(e) => expected == Err::<Seq<Seq<char>>, Failure>(e@),
    }
}

/// Appends one argument.
fn push_arg(args: &mut Vec<String>, text: &str)
    ensures
        texts(final(args)@) == texts(old(args)@) + seq![text@],
{
    args.push(text.to_string());
    assert(texts(args@) =~= texts(old(args)@) + seq![text@]);
}

/// Appends a flag and its value.
fn push_pair(args: &mut Vec<String>, key: &str, value: String)
    ensures
        texts(final(args)@) == texts(old(args)@) + seq![key@, value@],
{
    args.push(key.to_string());
    args.push(value);
    assert(texts(args@) =~= texts(old(args)@) + seq![key@, value@]);
}

/// Appends a flag and a text, when the text is not blank.
fn push_text_if_value(args: &mut Vec<String>, key: &str, text: String)
    ensures
        texts(final(args)@) == texts(old(args)@) + text_args(key@, text@),
{
    if has_text(text.as_str()) {
        push_pair(args, key, text);
    } else {
        assert(texts(args@) + Seq::<Seq<char>>::empty() =~= texts(args@));
    }
}

/// Appends a flag and the decimal text of a number, when the number is
/// finite and greater than zero.
fn push_count_if_positive(args: &mut Vec<String>, key: &str, value: Option<Number>)
    ensures
        texts(final(args)@) == texts(old(args)@) + count_args(key@, value),
{
    match round_positive(value) {
        Some(n) => {
            push_pair(args, key, decimal_text(n));
        },
        None => {
            assert(texts(args@) + Seq::<Seq<char>>::empty() =~= texts(args@));
        },
    }
}

/// Appends the trim flags: `-ss` with the start time and `-t` with the
/// duration, each only when its text is not blank.
pub fn push_trim_args(args: &mut Vec<String>, start_time: &str, duration: &str)
    ensures
        texts(final(args)@) == texts(old(args)@) + trim_args(start_time@, duration@),
{
    let ghost before = texts(args@);
    if has_text(start_time) {
        push_pair(args, "-ss", start_time.to_string());
    }
    if has_text(duration) {
        push_pair(args, "-t", duration.to_string());
    }
    assert(texts(args@) =~= before + trim_args(start_time@, duration@));
}

/// Appends `key` and the trimmed text of `value`, when that text is not
/// blank.
pub fn push_option_if_value(args: &mut Vec<String>, key: &str, value: &Option<String>)
    ensures
        texts(final(args)@) == texts(old(args)@) + option_args(key@, text_view(*value)),
{
    let text = text_from_option(value);
    if !has_text(text.as_str()) {
        assert(texts(args@) + Seq::<Seq<char>>::empty() =~= texts(args@));
        return ;
    }
    push_pair(args, key, text);
}

/// The explicit text of a field when it is not blank, else the fallback.
fn resolve_text(explicit: &Option<String>, fallback: Option<&'static str>) -> (r: String)
    ensures
        r@ == resolved(text_view(*explicit), str_view(fallback)),
{
    let text = text_from_option(explicit);
    if has_text(text.as_str()) {
        text
    } else {
        match fallback {
            Some(d) => d.to_string(),
            None => String::new(),
        }
    }
}

/// The explicit number when there is one, else the fallback.
fn resolve_number(explicit: Option<Number>, fallback: Option<Number>) -> (r: Option<Number>)
    ensures
        r == first_of(explicit, fallback),
{
    match explicit {
        Some(n) => Some(n),
        None => fallback,
    }
}

/// Appends the flags of the video stream.
fn push_video_args(args: &mut Vec<String>, job: &JobPayload, defaults: &VisualPresetDefaults)
    ensures
        texts(final(args)@) == texts(old(args)@) + video_args(job@, defaults@),
{
    let ghost before = texts(args@);
    let disable_video = (match job.disable_video {
        Some(flag) => flag,
        None => false,
    }) || defaults.disable_video;
    let video_codec = resolve_text(&job.video_codec, defaults.video_codec);
    if disable_video || text_eq(video_codec.as_str(), "none") {
        push_arg(args, "-vn");
        return ;
    }
    let is_copy = text_eq(video_codec.as_str(), "copy");
    if has_text(video_codec.as_str()) && !text_eq(video_codec.as_str(), "auto") {
        push_pair(args, "-c:v", video_codec);
    }
    let speed_preset = resolve_text(&job.speed_preset, defaults.speed_preset);
    if has_text(speed_preset.as_str()) && !is_copy {
        push_pair(args, "-preset", speed_preset);
    }
    match resolve_number(job.crf, defaults.crf) {
        Some(crf_value) => {
            if crf_value.finite && !is_copy {
                push_pair(args, "-crf", decimal_text(crf_value.rounded));
            }
        },
        None => {},
    }
    push_option_if_value(args, "-b:v", &job.video_bitrate);
    assert(texts(args@) =~= before + video_args(job@, defaults@));
}

/// Appends the flags of the audio stream.
fn push_audio_args(args: &mut Vec<String>, job: &JobPayload, defaults: &VisualPresetDefaults)
    ensures
        texts(final(args)@) == texts(old(args)@) + audio_args(job@, defaults@),
{
    let ghost before = texts(args@);
    let disable_audio = (match job.disable_audio {
        Some(flag) => flag,
        None => false,
    }) || defaults.disable_audio;
    let audio_codec = resolve_text(&job.audio_codec, defaults.audio_codec);
    if disable_audio || text_eq(audio_codec.as_str(), "none") {
        push_arg(args, "-an");
        return ;
    }
    if has_text(audio_codec.as_str()) && !text_eq(audio_codec.as_str(), "auto") {
        push_pair(args, "-c:a", audio_codec);
    }
    push_text_if_value(args, "-b:a", resolve_text(&job.audio_bitrate, defaults.audio_bitrate));
    push_text_if_value(args, "-q:a", resolve_text(&job.audio_quality, defaults.audio_quality));
    push_count_if_positive(args, "-ar", job.sample_rate);
    push_count_if_positive(args, "-ac", job.channels);
    assert(texts(args@) =~= before + audio_args(job@, defaults@));
}

/// The text of the scaling filter.
fn scale_filter(width: Option<Number>, height: Option<Number>) -> (r: String)
    ensures
        r@ == scale_text(width, height),
{
    let w: i64 = match round_positive(width) {
        Some(n) => n,
        None => -1,
    };
    let h: i64 = match round_positive(height) {
        Some(n) => n,
        None => -1,
    };
    let mut text = "scale=".to_string();
    text.append(decimal_text(w).as_str());
    text.append(":");
    text.append(decimal_text(h).as_str());
    text.append(":flags=lanczos");
    text
}

/// Appends the filter flag, when there is any filter.
fn push_filter_args(args: &mut Vec<String>, job: &JobPayload, defaults: &VisualPresetDefaults)
    ensures
        texts(final(args)@) == texts(old(args)@) + filter_args(job@, defaults@),
{
    let mut found: Vec<String> = Vec::new();
    assert(texts(found@) =~= Seq::<Seq<char>>::empty());
    match round_positive(resolve_number(job.fps, defaults.fps)) {
        Some(fps) => {
            let mut text = "fps=".to_string();
            text.append(decimal_text(fps).as_str());
            let ghost earlier = texts(found@);
            found.push(text);
            assert(texts(found@) =~= earlier + seq![text@]);
        },
        None => {},
    }
    let scale_width = resolve_number(job.scale_width, defaults.scale_width);
    let scale_height = resolve_number(job.scale_height, defaults.scale_height);
    if scale_width.is_some() || scale_height.is_some() {
        let text = scale_filter(scale_width, scale_height);
        let ghost earlier = texts(found@);
        found.push(text);
        assert(texts(found@) =~= earlier + seq![text@]);
    }
    let video_filter = text_from_option(&job.video_filter);
    if has_text(video_filter.as_str()) {
        let ghost earlier = texts(found@);
        found.push(video_filter);
        assert(texts(found@) =~= earlier + seq![video_filter@]);
    }
    assert(texts(found@) =~= filters(job@, defaults@));
    if found.len() > 0 {
        push_pair(args, "-vf", join_texts(&found, ","));
    } else {
        assert(texts(args@) + Seq::<Seq<char>>::empty() =~= texts(args@));
    }
}

/// Appends what one free-form option adds.
fn push_entry_args(args: &mut Vec<String>, entry: &ExtraArg)
    ensures
        texts(final(args)@) == texts(old(args)@) + entry_args(entry@),
{
    let ghost before = texts(args@);
    let switched_off = match entry.enabled {
        Some(flag) => !flag,
        None => false,
    };
    let key_raw = text_from_option(&entry.key);
    if switched_off || !has_text(key_raw.as_str()) {
        assert(before + Seq::<Seq<char>>::empty() =~= before);
        return ;
    }
    let key_chars = chars_of(key_raw.as_str());
    let key = if key_chars.len() > 0 && key_chars[0] == '-' {
        key_raw
    } else {
        let mut text = "-".to_string();
        text.append(key_raw.as_str());
        text
    };
    args.push(key);
    let value = text_from_option(&entry.value);
    if has_text(value.as_str()) {
        args.push(value);
    }
    assert(texts(args@) =~= before + entry_args(entry@));
}

/// Appends what the free-form options of a request add.
fn push_extra_args(args: &mut Vec<String>, job: &JobPayload)
    ensures
        texts(final(args)@) == texts(old(args)@) + extras_of(job@),
{
    let ghost before = texts(args@);
    match &job.extra_args {
        Some(entries) => {
            let ghost options = extra_options(entries@);
            let mut i: usize = 0;
            assert(options.take(0) =~= Seq::<ExtraOption>::empty());
            assert(before + extra_args(options.take(0)) =~= before);
            while i < entries.len()
                invariant
                    i <= entries.len(),
                    options == extra_options(entries@),
                    texts(args@) == before + extra_args(options.take(i as int)),
                decreases entries.len() - i,
            {
                let ghost earlier = texts(args@);
                push_entry_args(args, &entries[i]);
                proof {
                    let next = options.take(i + 1);
                    assert(next.drop_last() =~= options.take(i as int));
                    assert(next.last() == entries@[i as int]@);
                    assert(earlier + entry_args(entries@[i as int]@) =~= before + extra_args(next));
                }
                i = i + 1;
            }
            assert(options.take(entries.len() as int) =~= options);
        },
        None => {
            assert(before + Seq::<Seq<char>>::empty() =~= before);
        },
    }
}

/// Appends the flags that follow the streams in visual mode.
fn push_tail_args(args: &mut Vec<String>, job: &JobPayload, defaults: &VisualPresetDefaults)
    ensures
        texts(final(args)@) == texts(old(args)@) + tail_args(job@, defaults@),
{
    let ghost before = texts(args@);
    push_filter_args(args, job, defaults);
    let ghost filter = filter_args(job@, defaults@);
    push_text_if_value(args, "-loop", resolve_text(&job.loop_value, defaults.loop_value));
    let ghost looped = filter + text_args(
        "-loop"@,
        resolved(job@.loop_value, defaults@.loop_value),
    );
    proof {
        lemma_concat_assoc(
            before,
            filter,
            text_args("-loop"@, resolved(job@.loop_value, defaults@.loop_value)),
        );
    }
    push_option_if_value(args, "-pix_fmt", &job.pixel_format);
    let ghost pixel = looped + option_args("-pix_fmt"@, job@.pixel_format);
    proof {
        lemma_concat_assoc(before, looped, option_args("-pix_fmt"@, job@.pixel_format));
    }
    let faststart = match job.movflags_faststart {
        Some(flag) => flag,
        None => false,
    };
    let ghost flags = if faststart {
        seq!["-movflags"@, "+faststart"@]
    } else {
        Seq::<Seq<char>>::empty()
    };
    if faststart {
        push_pair(args, "-movflags", "+faststart".to_string());
    } else {
        assert(texts(args@) + flags =~= texts(args@));
    }
    let ghost moved = pixel + flags;
    proof {
        lemma_concat_assoc(before, pixel, flags);
    }
    push_count_if_positive(args, "-threads", job.threads);
    let ghost threaded = moved + count_args("-threads"@, job.threads);
    proof {
        lemma_concat_assoc(before, moved, count_args("-threads"@, job.threads));
    }
    push_option_if_value(args, "-f", &job.format);
    let ghost formatted = threaded + option_args("-f"@, job@.format);
    proof {
        lemma_concat_assoc(before, threaded, option_args("-f"@, job@.format));
    }
    push_option_if_value(args, "-map", &job.map_field);
    let ghost mapped = formatted + option_args("-map"@, job@.map_field);
    proof {
        lemma_concat_assoc(before, formatted, option_args("-map"@, job@.map_field));
    }
    push_extra_args(args, job);
    proof {
        lemma_concat_assoc(before, mapped, extras_of(job@));
    }
}

/// The flags that precede the streams.
fn head_of(overwrite: bool, job: &JobPayload, input_path: String) -> (args: Vec<String>)
    ensures
        texts(args@) == head_args(overwrite, job@, input_path@),
{
    let start_time = text_from_option(&job.start_time);
    let duration = text_from_option(&job.duration);
    let mut args: Vec<String> = Vec::new();
    assert(texts(args@) =~= Seq::<Seq<char>>::empty());
    if overwrite {
        push_arg(&mut args, "-y");
    }
    push_trim_args(&mut args, start_time.as_str(), duration.as_str());
    push_pair(&mut args, "-i", input_path);
    assert(texts(args@) =~= head_args(overwrite, job@, input_path@));
    args
}

/// Builds the argument list of a visual request for the given paths.
///
/// Every knob is the explicit field when it is not blank, else the value of
/// the preset's bundle, else absent. Fails with `MissingField` when a path is
/// blank.
pub fn build_visual_args_for(job: &JobPayload, input_path: String, output_path: String) -> (r:
    Result<Vec<String>, BuildError>)
    ensures
        built_as(r, visual_args_for(job@, input_path@, output_path@)),
{
    if !has_text(input_path.as_str()) || !has_text(output_path.as_str()) {
        return Err(BuildError::MissingField(MissingField::Paths));
    }
    let preset = preset_or_default(&job.preset);
    let defaults = visual_defaults(preset.as_str());
    let overwrite = match job.overwrite {
        Some(flag) => flag,
        None => true,
    };
    let mut args = head_of(overwrite, job, input_path);
    push_video_args(&mut args, job, &defaults);
    push_audio_args(&mut args, job, &defaults);
    push_tail_args(&mut args, job, &defaults);
    let ghost before = texts(args@);
    args.push(output_path);
    assert(texts(args@) =~= before + seq![output_path@]);
    Ok(args)
}

/// Builds the argument list of a visual request.
pub fn build_visual_args(job: &JobPayload) -> (r: Result<Vec<String>, BuildError>)
    ensures
        built_as(
            r,
            visual_args_for(job@, option_text(job@.input_path), option_text(job@.output_path)),
        ),
{
    build_visual_args_for(
        job,
        text_from_option(&job.input_path),
        text_from_option(&job.output_path),
    )
}

/// The rounded constant rate factor of a preset request.
fn crf_or(crf: Option<Number>, fallback: i64) -> (r: i64)
    ensures
        r == preset_crf(crf, fallback as int),
{
    match crf {
        Some(n) => n.rounded,
        None => fallback,
    }
}

/// A whole number of a preset request.
fn count_or(value: Option<Number>, fallback: i64) -> (r: i64)
    ensures
        r == preset_count(value, fallback as int),
{
    match round_positive(value) {
        Some(n) => n,
        None => fallback,
    }
}

/// Appends the flags of an encoder preset: video codec, speed, rate factor,
/// audio codec and audio bit rate.
fn push_encoder_bundle(
    args: &mut Vec<String>,
    codec: &str,
    crf: i64,
    audio_codec: &str,
    audio_bitrate: &str,
)
    ensures
        texts(final(args)@) == texts(old(args)@) + seq![
            "-c:v"@,
            codec@,
            "-preset"@,
            "medium"@,
            "-crf"@,
            decimal(crf as int),
            "-c:a"@,
            audio_codec@,
            "-b:a"@,
            audio_bitrate@,
        ],
{
    let ghost before = texts(args@);
    push_pair(args, "-c:v", codec.to_string());
    push_pair(args, "-preset", "medium".to_string());
    push_pair(args, "-crf", decimal_text(crf));
    push_pair(args, "-c:a", audio_codec.to_string());
    push_pair(args, "-b:a", audio_bitrate.to_string());
    assert(texts(args@) =~= before + seq![
        "-c:v"@,
        codec@,
        "-preset"@,
        "medium"@,
        "-crf"@,
        decimal(crf as int),
        "-c:a"@,
        audio_codec@,
        "-b:a"@,
        audio_bitrate@,
    ]);
}

/// Builds the argument list of a preset request for the given paths.
///
/// Fails with `MissingField` when a path is blank, and with
/// `UnsupportedPreset` when the preset is none of `h264`, `h265`, `mp3` and
/// `gif`.
pub fn build_preset_args_for(job: &JobPayload, input_path: String, output_path: String) -> (r:
    Result<Vec<String>, BuildError>)
    ensures
        built_as(r, preset_args_for(job@, input_path@, output_path@)),
{
    let preset = preset_or_default(&job.preset);
    if !has_text(input_path.as_str()) || !has_text(output_path.as_str()) {
        return Err(BuildError::MissingField(MissingField::Paths));
    }
    let mut args = head_of(true, job, input_path);
    let ghost head = texts(args@);
    if text_eq(preset.as_str(), "h264") {
        push_encoder_bundle(&mut args, "libx264", crf_or(job.crf, 23), "aac", "192k");
    } else if text_eq(preset.as_str(), "h265") {
        push_encoder_bundle(&mut args, "libx265", crf_or(job.crf, 28), "aac", "160k");
    } else if text_eq(preset.as_str(), "mp3") {
        push_arg(&mut args, "-vn");
        push_pair(&mut args, "-c:a", "libmp3lame".to_string());
        push_pair(&mut args, "-q:a", "2".to_string());
        assert(texts(args@) =~= head + seq!["-vn"@, "-c:a"@, "libmp3lame"@, "-q:a"@, "2"@]);
    } else if text_eq(preset.as_str(), "gif") {
        let fps = count_or(job.fps, 12);
        let width = count_or(job.scale_width, 480);
        let mut filter = "fps=".to_string();
        filter.append(decimal_text(fps).as_str());
        filter.append(",scale=");
        filter.append(decimal_text(width).as_str());
        filter.append(":-1:flags=lanczos");
        push_pair(&mut args, "-vf", filter);
        push_pair(&mut args, "-loop", "0".to_string());
        assert(texts(args@) =~= head + seq!["-vf"@, filter@, "-loop"@, "0"@]);
    } else {
        return Err(BuildError::UnsupportedPreset(preset));
    }
    let ghost before = texts(args@);
    args.push(output_path);
    assert(texts(args@) =~= before + seq![output_path@]);
    Ok(args)
}

/// Builds the argument list of a preset request.
pub fn build_preset_args(job: &JobPayload) -> (r: Result<Vec<String>, BuildError>)
    ensures
        built_as(
            r,
            preset_args_for(job@, option_text(job@.input_path), option_text(job@.output_path)),
        ),
{
    build_preset_args_for(
        job,
        text_from_option(&job.input_path),
        text_from_option(&job.output_path),
    )
}

/// Whether some token holds `pat`.
fn any_token_contains(tokens: &Vec<String>, pat: &str) -> (r: bool)
    ensures
        r == any_contains(texts(tokens@), pat@),
{
    let mut i: usize = 0;
    while i < tokens.len()
        invariant
            i <= tokens.len(),
            forall|j: int| 0 <= j < i ==> !contains(#[trigger] texts(tokens@)[j], pat@),
        decreases tokens.len() - i,
    {
        if contains_text(tokens[i].as_str(), pat) {
            assert(contains(texts(tokens@)[i as int], pat@));
            return true;
        }
        i = i + 1;
    }
    false
}

/// Builds the argument list of a raw request for the given paths.
///
/// The template is split into tokens, and in every token the placeholders
/// `{input}` and `{output}` are replaced by the paths. Fails with
/// `MissingField` when the template is blank, or when a placeholder stands in
/// a token and its path is blank, and with `Tokenize` when the template
/// cannot be split.
pub fn build_raw_args_for(job: &JobPayload, input_path: String, output_path: String) -> (r: Result<
    Vec<String>,
    BuildError,
>)
    ensures
        built_as(r, raw_args_for(job@, input_path@, output_path@)),
{
    let raw_args = text_from_option(&job.raw_args);
    if !has_text(raw_args.as_str()) {
        return Err(BuildError::MissingField(MissingField::RawArgs));
    }
    let tokens = match split_command_line(raw_args.as_str()) {
        Ok(tokens) => tokens,
        Err(e) => {
            return Err(BuildError::Tokenize(e));
        },
    };
    let needs_input = any_token_contains(&tokens, "{input}");
    let needs_output = any_token_contains(&tokens, "{output}");
    if needs_input && !has_text(input_path.as_str()) {
        return Err(BuildError::MissingField(MissingField::InputPath));
    }
    if needs_output && !has_text(output_path.as_str()) {
        return Err(BuildError::MissingField(MissingField::OutputPath));
    }
    let mut args: Vec<String> = Vec::new();
    let mut i: usize = 0;
    while i < tokens.len()
        invariant
            i <= tokens.len(),
            args.len() == i,
            forall|j: int|
                0 <= j < i ==> (#[trigger] args@[j])@ == substituted(
                    tokens@[j]@,
                    input_path@,
                    output_path@,
                ),
        decreases tokens.len() - i,
    {
        let with_input = replace_text(tokens[i].as_str(), "{input}", input_path.as_str());
        let with_both = replace_text(with_input.as_str(), "{output}", output_path.as_str());
        args.push(with_both);
        i = i + 1;
    }
    assert(texts(args@) =~= substituted_all(texts(tokens@), input_path@, output_path@));
    Ok(args)
}

/// Builds the argument list of a raw request.
pub fn build_raw_args(job: &JobPayload) -> (r: Result<Vec<String>, BuildError>)
    ensures
        built_as(
            r,
            raw_args_for(job@, option_text(job@.input_path), option_text(job@.output_path)),
        ),
{
    build_raw_args_for(
        job,
        text_from_option(&job.input_path),
        text_from_option(&job.output_path),
    )
}

/// Builds the argument list of a request for the given paths, by the mode
/// that the request names: `raw`, `visual`, and the preset mode otherwise.
pub fn build_ffmpeg_args_for(job: &JobPayload, input_path: String, output_path: String) -> (r:
    Result<Vec<String>, BuildError>)
    ensures
        built_as(r, ffmpeg_args_for(job@, input_path@, output_path@)),
{
    let mode = text_from_option(&job.mode);
    match mode_from_text(mode.as_str()) {
        Mode::Raw => build_raw_args_for(job, input_path, output_path),
        Mode::Visual => build_visual_args_for(job, input_path, output_path),
        Mode::Preset => build_preset_args_for(job, input_path, output_path),
    }
}

/// Builds the argument list of a request.
pub fn build_ffmpeg_args(job: &JobPayload) -> (r: Result<Vec<String>, BuildError>)
    ensures
        built_as(r, ffmpeg_args(job@)),
{
    build_ffmpeg_args_for(
        job,
        text_from_option(&job.input_path),
        text_from_option(&job.output_path),
    )
}

/// In preset and in visual mode the argument list ends with the output
/// path, whatever flags precede it, and holds the input path right after the
/// input flag, which follows the overwrite and trim flags.
pub proof fn lemma_output_path_is_last(job: JobRequest, input: Seq<char>, output: Seq<char>)
    ensures
        preset_args_for(job, input, output) is Ok ==> {
            let args = preset_args_for(job, input, output)->Ok_0;
            let head = head_args(true, job, input);
            &&& args.len() > head.len()
            &&& args.last() == output
            &&& args.take(head.len() as int) == head
            &&& head.len() >= 2 && head[head.len() - 2] == "-i"@ && head.last() == input
        },
        visual_args_for(job, input, output) is Ok ==> {
            let args = visual_args_for(job, input, output)->Ok_0;
            let head = head_args(job.overwrite != Some(false), job, input);
            &&& args.len() > head.len()
            &&& args.last() == output
            &&& args.take(head.len() as int) == head
            &&& head.len() >= 2 && head[head.len() - 2] == "-i"@ && head.last() == input
        },
{
    if preset_args_for(job, input, output) is Ok {
        let args = preset_args_for(job, input, output)->Ok_0;
        let head = head_args(true, job, input);
        assert(args.take(head.len() as int) =~= head);
    }
    if visual_args_for(job, input, output) is Ok {
        let d = defaults_of(preset_name(job.preset));
        let args = visual_args_for(job, input, output)->Ok_0;
        let head = head_args(job.overwrite != Some(false), job, input);
        let middle = video_args(job, d) + audio_args(job, d) + tail_args(job, d);
        assert(args =~= head + middle + seq![output]);
        assert(args.take(head.len() as int) =~= head);
    }
}

/// The bundles `a` and `b` differ at most in fields that the request sets
/// itself: a text field that is not blank, a number that is present. The
/// two switches that drop a stream are no such fields, and are the same in
/// both.
pub open spec fn differ_only_where_set(
    job: JobRequest,
    a: PresetDefaults,
    b: PresetDefaults,
) -> bool {
    &&& a.disable_video == b.disable_video
    &&& a.disable_audio == b.disable_audio
    &&& (nonblank(option_text(job.video_codec)) || a.video_codec == b.video_codec)
    &&& (nonblank(option_text(job.speed_preset)) || a.speed_preset
        == b.speed_preset)
    &&& (job.crf is Some || a.crf == b.crf)
    &&& (nonblank(option_text(job.audio_codec)) || a.audio_codec == b.audio_codec)
    &&& (nonblank(option_text(job.audio_bitrate)) || a.audio_bitrate
        == b.audio_bitrate)
    &&& (nonblank(option_text(job.audio_quality)) || a.audio_quality
        == b.audio_quality)
    &&& (job.fps is Some || a.fps == b.fps)
    &&& (job.scale_width is Some || a.scale_width == b.scale_width)
    &&& (job.scale_height is Some || a.scale_height == b.scale_height)
    &&& (nonblank(option_text(job.loop_value)) || a.loop_value == b.loop_value)
}

/// In visual mode a field that the request sets always overrides the
/// preset's: the argument list is the same over any two bundles that differ
/// only in such fields, so no value of the bundle can show in place of the
/// request's.
pub proof fn lemma_explicit_fields_override(
    job: JobRequest,
    input: Seq<char>,
    output: Seq<char>,
    a: PresetDefaults,
    b: PresetDefaults,
)
    requires
        differ_only_where_set(job, a, b),
    ensures
        visual_args_over(job, input, output, a) == visual_args_over(job, input, output, b),
{
    assert(resolved(job.video_codec, a.video_codec) == resolved(job.video_codec, b.video_codec));
    assert(resolved(job.audio_codec, a.audio_codec) == resolved(job.audio_codec, b.audio_codec));
    assert(video_args(job, a) == video_args(job, b));
    assert(audio_args(job, a) == audio_args(job, b));
    assert(filters(job, a) == filters(job, b));
    assert(tail_args(job, a) == tail_args(job, b));
}

/// An explicit constant rate factor is the one that is shown: where the
/// video flags carry a rate factor at all, it is the request's, rounded.
pub proof fn lemma_explicit_crf_overrides(job: JobRequest, d: PresetDefaults, crf: Number)
    requires
        job.crf == Some(crf),
    ensures
        crf_args(first_of(job.crf, d.crf), resolved(job.video_codec, d.video_codec)) == crf_args(
            Some(crf),
            resolved(job.video_codec, d.video_codec),
        ),
        !video_disabled(job, d) && crf.finite && resolved(job.video_codec, d.video_codec)
            != "copy"@ ==> exists|i: int|
            0 <= i && i + 1 < video_args(job, d).len() && video_args(job, d)[i] == "-crf"@
                && #[trigger] video_args(job, d)[i + 1] == decimal(crf.rounded as int),
{
    if !video_disabled(job, d) && crf.finite && resolved(job.video_codec, d.video_codec)
        != "copy"@ {
        let codec = resolved(job.video_codec, d.video_codec);
        let speed = resolved(job.speed_preset, d.speed_preset);
        let first = if nonblank(codec) && codec != "auto"@ {
            seq!["-c:v"@, codec]
        } else {
            Seq::<Seq<char>>::empty()
        };
        let second = if nonblank(speed) && codec != "copy"@ {
            seq!["-preset"@, speed]
        } else {
            Seq::<Seq<char>>::empty()
        };
        let at = (first.len() + second.len()) as int;
        let all = video_args(job, d);
        assert(all == first + second + crf_args(Some(crf), codec) + option_args(
            "-b:v"@,
            job.video_bitrate,
        ));
        assert(all[at] == "-crf"@);
        assert(all[at + 1] == decimal(crf.rounded as int));
    }
}

/// The characters of the two placeholders: neither has a quote, a backslash
/// or white space, and neither is empty.
proof fn lemma_placeholders_are_plain()
    ensures
        plain_text(input_placeholder()),
        plain_text(output_placeholder()),
        input_placeholder().len() == 7,
        output_placeholder().len() == 8,
{
    reveal_strlit("{input}");
    reveal_strlit("{output}");
}

/// A text in which a plain pattern with a character stands is not blank.
proof fn lemma_plain_pattern_makes_nonblank(s: Seq<char>, pat: Seq<char>)
    requires
        contains(s, pat),
        plain_text(pat),
        pat.len() > 0,
    ensures
        nonblank(s),
{
    let at = choose|at: int| occurs_at(s, pat, at);
    assert(s.subrange(at, at + pat.len())[0] == pat[0]);
    assert(!is_space(s[at]));
}

/// A template in which the output placeholder stands cannot be built while
/// the output path is blank. Where the template splits, the failure is a
/// missing field: the input path where that is asked for and blank too, the
/// output path otherwise. Where it does not split, the failure is that.
pub proof fn lemma_output_placeholder_needs_path(
    raw: Seq<char>,
    input: Seq<char>,
    output: Seq<char>,
)
    requires
        contains(raw, output_placeholder()),
        !nonblank(output),
    ensures
        raw_args_of(raw, input, output) is Err,
        tokenized(raw) is Ok ==> raw_args_of(raw, input, output) == Err::<
            Seq<Seq<char>>,
            Failure,
        >(Failure::MissingField(MissingField::InputPath)) || raw_args_of(raw, input, output)
            == Err::<Seq<Seq<char>>, Failure>(Failure::MissingField(MissingField::OutputPath)),
{
    lemma_placeholders_are_plain();
    lemma_plain_pattern_makes_nonblank(raw, output_placeholder());
    if tokenized(raw) is Ok {
        lemma_pattern_reaches_token(raw, output_placeholder());
    }
}

/// A template in which the input placeholder stands, and which splits, fails
/// for the missing input path while the input path is blank.
pub proof fn lemma_input_placeholder_needs_path(
    raw: Seq<char>,
    input: Seq<char>,
    output: Seq<char>,
)
    requires
        contains(raw, input_placeholder()),
        !nonblank(input),
        tokenized(raw) is Ok,
    ensures
        raw_args_of(raw, input, output) == Err::<Seq<Seq<char>>, Failure>(
            Failure::MissingField(MissingField::InputPath),
        ),
{
    lemma_placeholders_are_plain();
    lemma_plain_pattern_makes_nonblank(raw, input_placeholder());
    lemma_pattern_reaches_token(raw, input_placeholder());
}

/// A template whose tokens hold neither placeholder needs no path: whatever
/// the paths are, blank ones too, its argument list is its tokens as they
/// are.
pub proof fn lemma_no_placeholder_needs_no_path(
    raw: Seq<char>,
    input: Seq<char>,
    output: Seq<char>,
)
    requires
        nonblank(raw),
        tokenized(raw) is Ok,
        !any_contains(tokenized(raw).unwrap(), input_placeholder()),
        !any_contains(tokenized(raw).unwrap(), output_placeholder()),
    ensures
        raw_args_of(raw, input, output) == Ok::<Seq<Seq<char>>, Failure>(tokenized(raw).unwrap()),
{
    let tokens = tokenized(raw).unwrap();
    assert forall|i: int| 0 <= i < tokens.len() implies substituted(tokens[i], input, output)
        == tokens[i] by {
        assert(!contains(tokens[i], input_placeholder()));
        assert(!contains(tokens[i], output_placeholder()));
        lemma_replaced_without_occurrence(tokens[i], input_placeholder(), input);
        lemma_replaced_without_occurrence(tokens[i], output_placeholder(), output);
    }
    assert(substituted_all(tokens, input, output) =~= tokens);
}

/// A template without quotes and backslashes, in which neither placeholder
/// stands, needs no path: it always builds, with blank paths too, and its
/// argument list is its tokens as they are.
pub proof fn lemma_plain_template_needs_no_path(
    raw: Seq<char>,
    input: Seq<char>,
    output: Seq<char>,
)
    requires
        nonblank(raw),
        quote_free(raw),
        !contains(raw, input_placeholder()),
        !contains(raw, output_placeholder()),
    ensures
        tokenized(raw) is Ok,
        raw_args_of(raw, input, output) == Ok::<Seq<Seq<char>>, Failure>(tokenized(raw).unwrap()),
{
    lemma_quote_free_tokens_are_pieces(raw);
    let tokens = tokenized(raw).unwrap();
    assert forall|i: int| 0 <= i < tokens.len() implies !contains(
        #[trigger] tokens[i],
        input_placeholder(),
    ) && !contains(tokens[i], output_placeholder()) by {
        if contains(tokens[i], input_placeholder()) {
            lemma_contains_transitive(raw, tokens[i], input_placeholder());
        }
        if contains(tokens[i], output_placeholder()) {
            lemma_contains_transitive(raw, tokens[i], output_placeholder());
        }
    }
    lemma_no_placeholder_needs_no_path(raw, input, output);
}

} // verus!
