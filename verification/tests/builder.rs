use ffmpeg_task::builder::{
    build_ffmpeg_args, build_preset_args, build_raw_args, build_visual_args, push_option_if_value,
    push_trim_args, BuildError, MissingField,
};
use ffmpeg_task::request::{round_positive, visual_defaults, ExtraArg, JobPayload, Number};
use ffmpeg_task::tokenizer::ParseError;

fn text(value: &str) -> Option<String> {
    Some(value.to_string())
}

fn list(items: &[&str]) -> Vec<String> {
    items.iter().map(|item| item.to_string()).collect()
}

fn paths() -> JobPayload {
    JobPayload { input_path: text("/in/a.mov"), output_path: text("/out/b.mp4"), ..JobPayload::default() }
}

fn visual() -> JobPayload {
    JobPayload { mode: text("visual"), ..paths() }
}

fn number(finite: bool, positive: bool, rounded: i64) -> Option<Number> {
    Some(Number { finite, positive, rounded })
}

#[test]
fn preset_h264_is_the_default() {
    assert_eq!(
        build_ffmpeg_args(&paths()),
        Ok(list(&[
            "-y", "-i", "/in/a.mov", "-c:v", "libx264", "-preset", "medium", "-crf", "23", "-c:a",
            "aac", "-b:a", "192k", "/out/b.mp4",
        ]))
    );
}

#[test]
fn preset_rounded_crf_overrides_the_default() {
    let job = JobPayload { preset: text("h264"), crf: Some(Number::whole(18)), ..paths() };
    let args = build_preset_args(&job).expect("build failed");
    assert_eq!(args[8], "18");
    let job = JobPayload { preset: text(" h265 "), crf: number(true, true, 31), ..paths() };
    assert_eq!(
        build_preset_args(&job),
        Ok(list(&[
            "-y", "-i", "/in/a.mov", "-c:v", "libx265", "-preset", "medium", "-crf", "31", "-c:a",
            "aac", "-b:a", "160k", "/out/b.mp4",
        ]))
    );
}

#[test]
fn preset_h265_default_crf_is_28() {
    let job = JobPayload { preset: text("h265"), ..paths() };
    let args = build_preset_args(&job).expect("build failed");
    assert_eq!(args[7], "-crf");
    assert_eq!(args[8], "28");
}

#[test]
fn preset_mp3_drops_video() {
    let job = JobPayload { preset: text("mp3"), crf: Some(Number::whole(5)), ..paths() };
    assert_eq!(
        build_preset_args(&job),
        Ok(list(&["-y", "-i", "/in/a.mov", "-vn", "-c:a", "libmp3lame", "-q:a", "2", "/out/b.mp4"]))
    );
}

#[test]
fn preset_gif_composes_its_filter() {
    let job = JobPayload { preset: text("gif"), ..paths() };
    assert_eq!(
        build_preset_args(&job),
        Ok(list(&[
            "-y", "-i", "/in/a.mov", "-vf", "fps=12,scale=480:-1:flags=lanczos", "-loop", "0",
            "/out/b.mp4",
        ]))
    );
    let job = JobPayload {
        preset: text("gif"),
        fps: Some(Number::whole(24)),
        scale_width: Some(Number::whole(640)),
        ..paths()
    };
    let args = build_preset_args(&job).expect("build failed");
    assert_eq!(args[4], "fps=24,scale=640:-1:flags=lanczos");
    let job = JobPayload {
        preset: text("gif"),
        fps: number(true, false, -3),
        scale_width: number(false, true, i64::MAX),
        ..paths()
    };
    let args = build_preset_args(&job).expect("build failed");
    assert_eq!(args[4], "fps=12,scale=480:-1:flags=lanczos");
}

#[test]
fn preset_trim_flags_come_before_the_input() {
    let job = JobPayload { start_time: text(" 00:00:05 "), duration: text("10"), ..paths() };
    let args = build_preset_args(&job).expect("build failed");
    assert_eq!(&args[..7], &list(&["-y", "-ss", "00:00:05", "-t", "10", "-i", "/in/a.mov"])[..]);
    let job = JobPayload { start_time: text("   "), duration: text("10"), ..paths() };
    let args = build_preset_args(&job).expect("build failed");
    assert_eq!(&args[..5], &list(&["-y", "-t", "10", "-i", "/in/a.mov"])[..]);
}

#[test]
fn unknown_preset_is_unsupported() {
    let job = JobPayload { preset: text("vp9"), ..paths() };
    let error = build_preset_args(&job).expect_err("built");
    assert_eq!(error, BuildError::UnsupportedPreset("vp9".to_string()));
    assert_eq!(error.message(), "Unsupported preset: vp9");
}

#[test]
fn preset_and_visual_need_both_paths() {
    let no_input = JobPayload { output_path: text("/out/b.mp4"), ..JobPayload::default() };
    let no_output = JobPayload { input_path: text("/in/a.mov"), output_path: text("  "), ..JobPayload::default() };
    for job in [no_input, no_output] {
        assert_eq!(build_preset_args(&job), Err(BuildError::MissingField(MissingField::Paths)));
        assert_eq!(build_visual_args(&job), Err(BuildError::MissingField(MissingField::Paths)));
    }
    assert_eq!(
        BuildError::MissingField(MissingField::Paths).message(),
        "inputPath and outputPath are required"
    );
    let unknown = JobPayload { preset: text("vp9"), ..JobPayload::default() };
    assert_eq!(build_preset_args(&unknown), Err(BuildError::MissingField(MissingField::Paths)));
}

#[test]
fn visual_falls_back_to_the_preset_defaults() {
    assert_eq!(
        build_ffmpeg_args(&visual()),
        Ok(list(&[
            "-y", "-i", "/in/a.mov", "-c:v", "libx264", "-preset", "medium", "-crf", "23", "-c:a",
            "aac", "-b:a", "192k", "/out/b.mp4",
        ]))
    );
    let job = JobPayload { preset: text("h265"), ..visual() };
    assert_eq!(
        build_visual_args(&job),
        Ok(list(&[
            "-y", "-i", "/in/a.mov", "-c:v", "libx265", "-preset", "medium", "-crf", "28", "-c:a",
            "aac", "-b:a", "160k", "/out/b.mp4",
        ]))
    );
    let job = JobPayload { preset: text("mp3"), ..visual() };
    assert_eq!(
        build_visual_args(&job),
        Ok(list(&["-y", "-i", "/in/a.mov", "-vn", "-c:a", "libmp3lame", "-q:a", "2", "/out/b.mp4"]))
    );
    let job = JobPayload { preset: text("gif"), ..visual() };
    assert_eq!(
        build_visual_args(&job),
        Ok(list(&[
            "-y", "-i", "/in/a.mov", "-an", "-vf", "fps=12,scale=480:-1:flags=lanczos", "-loop",
            "0", "/out/b.mp4",
        ]))
    );
    let job = JobPayload { preset: text("anything"), ..visual() };
    assert_eq!(build_visual_args(&job), build_visual_args(&visual()));
}

#[test]
fn visual_explicit_fields_override_the_defaults() {
    let job = JobPayload {
        crf: Some(Number::whole(17)),
        video_codec: text("libvpx-vp9"),
        speed_preset: text("slow"),
        audio_codec: text("libopus"),
        audio_bitrate: text("96k"),
        audio_quality: text("4"),
        ..visual()
    };
    assert_eq!(
        build_visual_args(&job),
        Ok(list(&[
            "-y", "-i", "/in/a.mov", "-c:v", "libvpx-vp9", "-preset", "slow", "-crf", "17", "-c:a",
            "libopus", "-b:a", "96k", "-q:a", "4", "/out/b.mp4",
        ]))
    );
    let job = JobPayload {
        preset: text("gif"),
        fps: Some(Number::whole(30)),
        scale_width: Some(Number::whole(320)),
        scale_height: Some(Number::whole(200)),
        loop_value: text("3"),
        ..visual()
    };
    assert_eq!(
        build_visual_args(&job),
        Ok(list(&[
            "-y", "-i", "/in/a.mov", "-an", "-vf", "fps=30,scale=320:200:flags=lanczos", "-loop",
            "3", "/out/b.mp4",
        ]))
    );
}

#[test]
fn visual_explicit_number_that_is_not_usable_still_hides_the_default() {
    let job = JobPayload { crf: number(false, false, 0), ..visual() };
    let args = build_visual_args(&job).expect("build failed");
    assert!(!args.contains(&"-crf".to_string()));
    let job = JobPayload { preset: text("gif"), fps: number(true, false, 0), ..visual() };
    assert_eq!(
        build_visual_args(&job),
        Ok(list(&["-y", "-i", "/in/a.mov", "-an", "-vf", "scale=480:-1:flags=lanczos", "-loop", "0", "/out/b.mp4"]))
    );
}

#[test]
fn visual_disabling_a_stream_drops_its_flags() {
    let job = JobPayload { disable_video: Some(true), crf: Some(Number::whole(20)), video_bitrate: text("2M"), ..visual() };
    assert_eq!(
        build_visual_args(&job),
        Ok(list(&["-y", "-i", "/in/a.mov", "-vn", "-c:a", "aac", "-b:a", "192k", "/out/b.mp4"]))
    );
    let job = JobPayload { disable_audio: Some(true), sample_rate: Some(Number::whole(44100)), ..visual() };
    assert_eq!(
        build_visual_args(&job),
        Ok(list(&["-y", "-i", "/in/a.mov", "-c:v", "libx264", "-preset", "medium", "-crf", "23", "-an", "/out/b.mp4"]))
    );
    let job = JobPayload { video_codec: text("none"), audio_codec: text(" none "), ..visual() };
    assert_eq!(build_visual_args(&job), Ok(list(&["-y", "-i", "/in/a.mov", "-vn", "-an", "/out/b.mp4"])));
    let job = JobPayload { preset: text("mp3"), disable_video: Some(false), ..visual() };
    let args = build_visual_args(&job).expect("build failed");
    assert_eq!(args[3], "-vn");
}

#[test]
fn visual_codec_auto_gives_no_codec_flag() {
    let job = JobPayload { video_codec: text("auto"), audio_codec: text("auto"), ..visual() };
    assert_eq!(
        build_visual_args(&job),
        Ok(list(&["-y", "-i", "/in/a.mov", "-preset", "medium", "-crf", "23", "-b:a", "192k", "/out/b.mp4"]))
    );
}

#[test]
fn visual_codec_copy_gives_no_speed_and_no_crf() {
    let job = JobPayload {
        video_codec: text("copy"),
        crf: Some(Number::whole(20)),
        speed_preset: text("fast"),
        video_bitrate: text("2M"),
        ..visual()
    };
    assert_eq!(
        build_visual_args(&job),
        Ok(list(&["-y", "-i", "/in/a.mov", "-c:v", "copy", "-b:v", "2M", "-c:a", "aac", "-b:a", "192k", "/out/b.mp4"]))
    );
}

#[test]
fn visual_audio_numbers_are_rounded_and_must_be_positive() {
    let job = JobPayload {
        sample_rate: number(true, true, 48000),
        channels: number(true, true, 2),
        ..visual()
    };
    let args = build_visual_args(&job).expect("build failed");
    assert_eq!(&args[9..17], &list(&["-c:a", "aac", "-b:a", "192k", "-ar", "48000", "-ac", "2"])[..]);
    let job = JobPayload {
        sample_rate: number(true, false, 0),
        channels: number(false, true, i64::MAX),
        threads: number(true, false, -2),
        ..visual()
    };
    assert_eq!(build_visual_args(&job), build_visual_args(&visual()));
    let job = JobPayload { channels: number(true, true, 0), ..visual() };
    let args = build_visual_args(&job).expect("build failed");
    assert_eq!(&args[13..15], &list(&["-ac", "0"])[..]);
}

#[test]
fn visual_filters_are_merged_into_one_flag() {
    let job = JobPayload {
        fps: Some(Number::whole(25)),
        scale_width: Some(Number::whole(1280)),
        video_filter: text(" format=yuv420p "),
        ..visual()
    };
    let args = build_visual_args(&job).expect("build failed");
    assert_eq!(&args[13..15], &list(&["-vf", "fps=25,scale=1280:-1:flags=lanczos,format=yuv420p"])[..]);
    let job = JobPayload { scale_height: Some(Number::whole(720)), ..visual() };
    let args = build_visual_args(&job).expect("build failed");
    assert_eq!(&args[13..15], &list(&["-vf", "scale=-1:720:flags=lanczos"])[..]);
    let job = JobPayload { scale_width: number(true, false, -5), scale_height: number(false, false, 0), ..visual() };
    let args = build_visual_args(&job).expect("build failed");
    assert_eq!(&args[13..15], &list(&["-vf", "scale=-1:-1:flags=lanczos"])[..]);
    let job = JobPayload { video_filter: text("hflip"), ..visual() };
    let args = build_visual_args(&job).expect("build failed");
    assert_eq!(&args[13..15], &list(&["-vf", "hflip"])[..]);
}

#[test]
fn visual_tail_flags_keep_their_order() {
    let job = JobPayload {
        loop_value: text("1"),
        pixel_format: text("yuv420p"),
        movflags_faststart: Some(true),
        threads: Some(Number::whole(4)),
        format: text("mp4"),
        map_field: text("0:v:0"),
        ..visual()
    };
    let args = build_visual_args(&job).expect("build failed");
    assert_eq!(
        &args[13..],
        &list(&[
            "-loop", "1", "-pix_fmt", "yuv420p", "-movflags", "+faststart", "-threads", "4", "-f",
            "mp4", "-map", "0:v:0", "/out/b.mp4",
        ])[..]
    );
}

#[test]
fn visual_extra_options() {
    let job = JobPayload {
        extra_args: Some(vec![
            ExtraArg { key: text("tune"), value: text(" film "), enabled: None },
            ExtraArg { key: text("-an"), value: None, enabled: Some(true) },
            ExtraArg { key: text("skipped"), value: text("x"), enabled: Some(false) },
            ExtraArg { key: text("   "), value: text("x"), enabled: None },
            ExtraArg { key: None, value: text("x"), enabled: None },
            ExtraArg { key: text("--strict"), value: text("-2"), enabled: None },
        ]),
        ..visual()
    };
    let args = build_visual_args(&job).expect("build failed");
    assert_eq!(&args[13..], &list(&["-tune", "film", "-an", "--strict", "-2", "/out/b.mp4"])[..]);
}

#[test]
fn visual_overwrite_can_be_switched_off() {
    let job = JobPayload { overwrite: Some(false), start_time: text("1"), ..visual() };
    let args = build_visual_args(&job).expect("build failed");
    assert_eq!(&args[..4], &list(&["-ss", "1", "-i", "/in/a.mov"])[..]);
    let job = JobPayload { overwrite: Some(true), ..visual() };
    assert_eq!(build_visual_args(&job).expect("build failed")[0], "-y");
}

#[test]
fn the_output_path_is_always_last() {
    let jobs = [
        visual(),
        JobPayload { preset: text("gif"), ..visual() },
        JobPayload { preset: text("mp3"), ..paths() },
        JobPayload { extra_args: Some(vec![ExtraArg { key: text("x"), value: text("y"), enabled: None }]), ..visual() },
    ];
    for job in jobs {
        let args = build_ffmpeg_args(&job).expect("build failed");
        assert_eq!(args.last(), Some(&"/out/b.mp4".to_string()));
    }
}

#[test]
fn raw_substitutes_the_placeholders() {
    let job = JobPayload {
        mode: text(" raw "),
        raw_args: text(r#" -i "{input}" -vf "scale=1280:-1" {output}.tmp "{input}:{output}" "#),
        input_path: text(" /in/my clip.mov "),
        output_path: text("/out/b.mp4"),
        ..JobPayload::default()
    };
    assert_eq!(
        build_ffmpeg_args(&job),
        Ok(list(&[
            "-i", "/in/my clip.mov", "-vf", "scale=1280:-1", "/out/b.mp4.tmp",
            "/in/my clip.mov:/out/b.mp4",
        ]))
    );
}

#[test]
fn raw_needs_a_template() {
    for raw_args in [None, text(""), text("  \t ")] {
        let job = JobPayload { raw_args, ..paths() };
        assert_eq!(build_raw_args(&job), Err(BuildError::MissingField(MissingField::RawArgs)));
    }
    assert_eq!(BuildError::MissingField(MissingField::RawArgs).message(), "rawArgs is required for raw mode");
}

#[test]
fn raw_placeholder_needs_its_path() {
    let job = JobPayload { raw_args: text("-i {input} out.mp4"), output_path: text("/o"), ..JobPayload::default() };
    let error = build_raw_args(&job).expect_err("built");
    assert_eq!(error, BuildError::MissingField(MissingField::InputPath));
    assert_eq!(error.message(), "inputPath is required because raw args contain {input}");
    let job = JobPayload { raw_args: text("-i {input} '{output}'"), input_path: text("/i"), output_path: text(" "), ..JobPayload::default() };
    let error = build_raw_args(&job).expect_err("built");
    assert_eq!(error, BuildError::MissingField(MissingField::OutputPath));
    assert_eq!(error.message(), "outputPath is required because raw args contain {output}");
    let job = JobPayload { raw_args: text("{output} {input}"), ..JobPayload::default() };
    assert_eq!(build_raw_args(&job), Err(BuildError::MissingField(MissingField::InputPath)));
}

#[test]
fn raw_without_placeholders_needs_no_path() {
    let job = JobPayload { raw_args: text("-version"), ..JobPayload::default() };
    assert_eq!(build_raw_args(&job), Ok(list(&["-version"])));
    let job = JobPayload { raw_args: text("-i a.mov -c copy 'b c.mp4'"), ..JobPayload::default() };
    assert_eq!(build_raw_args(&job), Ok(list(&["-i", "a.mov", "-c", "copy", "b c.mp4"])));
    let job = JobPayload { raw_args: text("-i {input} x"), input_path: text("/i"), ..JobPayload::default() };
    assert_eq!(build_raw_args(&job), Ok(list(&["-i", "/i", "x"])));
}

#[test]
fn raw_placeholder_put_together_by_quotes_counts() {
    let job = JobPayload { raw_args: text(r#"{in"put}""#), ..JobPayload::default() };
    assert_eq!(build_raw_args(&job), Err(BuildError::MissingField(MissingField::InputPath)));
    let job = JobPayload { raw_args: text(r#"{in"put}""#), input_path: text("/i"), ..JobPayload::default() };
    assert_eq!(build_raw_args(&job), Ok(list(&["/i"])));
}

#[test]
fn raw_template_that_does_not_split_fails_so() {
    let job = JobPayload { raw_args: text("-i \"{input}"), ..paths() };
    let error = build_raw_args(&job).expect_err("built");
    assert_eq!(error, BuildError::Tokenize(ParseError::UnterminatedQuote));
    assert_eq!(error.message(), "Invalid command line: unclosed quote");
    let job = JobPayload { raw_args: text("-i {input} \\"), ..paths() };
    assert_eq!(build_raw_args(&job), Err(BuildError::Tokenize(ParseError::UnterminatedEscape)));
}

#[test]
fn the_mode_selects_the_builder() {
    let raw = JobPayload { mode: text("raw"), raw_args: text("-version"), ..paths() };
    assert_eq!(build_ffmpeg_args(&raw), Ok(list(&["-version"])));
    let other = JobPayload { mode: text("RAW"), raw_args: text("-version"), ..paths() };
    assert_eq!(build_ffmpeg_args(&other), build_preset_args(&paths()));
    let unknown_preset = JobPayload { mode: text("visual"), preset: text("vp9"), ..paths() };
    assert!(build_ffmpeg_args(&unknown_preset).is_ok());
    let unknown_preset = JobPayload { mode: text("preset"), preset: text("vp9"), ..paths() };
    assert_eq!(build_ffmpeg_args(&unknown_preset), Err(BuildError::UnsupportedPreset("vp9".to_string())));
}

#[test]
fn push_trim_args_appends_only_what_has_text() {
    let mut args = list(&["-y"]);
    push_trim_args(&mut args, "5", " ");
    assert_eq!(args, list(&["-y", "-ss", "5"]));
    push_trim_args(&mut args, "", "7");
    assert_eq!(args, list(&["-y", "-ss", "5", "-t", "7"]));
    push_trim_args(&mut args, "", "");
    assert_eq!(args.len(), 5);
}

#[test]
fn push_option_if_value_trims_the_value() {
    let mut args = Vec::new();
    push_option_if_value(&mut args, "-f", &text(" mp4 "));
    push_option_if_value(&mut args, "-map", &None);
    push_option_if_value(&mut args, "-x", &text("  "));
    assert_eq!(args, list(&["-f", "mp4"]));
}

#[test]
fn round_positive_wants_a_finite_positive_number() {
    assert_eq!(round_positive(None), None);
    assert_eq!(round_positive(number(true, true, 12)), Some(12));
    assert_eq!(round_positive(number(true, true, 0)), Some(0));
    assert_eq!(round_positive(number(true, false, 0)), None);
    assert_eq!(round_positive(number(false, true, i64::MAX)), None);
    assert_eq!(round_positive(Some(Number::whole(-4))), None);
    assert_eq!(round_positive(Some(Number::whole(4))), Some(4));
}

#[test]
fn visual_defaults_of_the_four_presets() {
    let d = visual_defaults("h264");
    assert_eq!((d.video_codec, d.speed_preset, d.crf), (Some("libx264"), Some("medium"), Some(Number::whole(23))));
    assert_eq!((d.audio_codec, d.audio_bitrate, d.audio_quality), (Some("aac"), Some("192k"), None));
    assert!(!d.disable_video && !d.disable_audio);
    let d = visual_defaults("h265");
    assert_eq!((d.video_codec, d.crf, d.audio_bitrate), (Some("libx265"), Some(Number::whole(28)), Some("160k")));
    let d = visual_defaults("mp3");
    assert_eq!((d.audio_codec, d.audio_quality, d.disable_video, d.video_codec), (Some("libmp3lame"), Some("2"), true, None));
    let d = visual_defaults("gif");
    assert_eq!((d.disable_audio, d.fps, d.scale_width, d.scale_height, d.loop_value), (true, Some(Number::whole(12)), Some(Number::whole(480)), None, Some("0")));
    let d = visual_defaults("other");
    assert_eq!(d.video_codec, Some("libx264"));
}
