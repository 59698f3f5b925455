use ffmpeg_task::paths::{
    command_failure_message, converted_file_name, executable_candidates, extension_for_preset,
    format_spawn_error, is_explicit_path, place_beside, probe_args, resolve_executable_path,
    suggest_output, suggest_output_path, Platform, SpawnFailure,
};
use ffmpeg_task::request::PickOutputPayload;

#[test]
fn suggest_output_path_uses_preset_extension() {
    assert_eq!(
        suggest_output_path("/Users/me/video.mov", "h264"),
        "/Users/me/video_converted.mp4"
    );
    assert_eq!(
        suggest_output_path("/Users/me/audio.wav", "mp3"),
        "/Users/me/audio_converted.mp3"
    );
}

#[test]
fn suggest_output_path_on_short_paths() {
    assert_eq!(suggest_output_path("/a/video.mov", "h264"), "/a/video_converted.mp4");
    assert_eq!(suggest_output_path("/a/audio.wav", "mp3"), "/a/audio_converted.mp3");
    assert_eq!(suggest_output_path("/a/clip.mov", "gif"), "/a/clip_converted.gif");
    assert_eq!(suggest_output_path("/a/clip.tar.gz", "h265"), "/a/clip.tar_converted.mp4");
    assert_eq!(suggest_output_path("clip.mov", "h264"), "clip_converted.mp4");
    assert_eq!(suggest_output_path("/clip", "h264"), "/clip_converted.mp4");
    assert_eq!(suggest_output_path("/a/.hidden", "h264"), "/a/.hidden_converted.mp4");
}

#[test]
fn suggest_output_path_without_a_stem_falls_back() {
    assert_eq!(suggest_output_path("/", "h264"), "output_converted.mp4");
    assert_eq!(suggest_output_path("..", "mp3"), "output_converted.mp3");
    assert_eq!(suggest_output_path("/a/..", "gif"), "/a/output_converted.gif");
}

#[test]
fn suggest_output_path_of_a_blank_input_is_empty() {
    assert_eq!(suggest_output_path("", "h264"), "");
    assert_eq!(suggest_output_path("  ", "mp3"), "");
}

#[test]
fn suggest_output_defaults_the_preset() {
    let payload = PickOutputPayload { input_path: Some(" /a/video.mov ".to_string()), preset: None };
    assert_eq!(suggest_output(&payload), "/a/video_converted.mp4");
    let payload = PickOutputPayload { input_path: Some("/a/video.mov".to_string()), preset: Some(" gif ".to_string()) };
    assert_eq!(suggest_output(&payload), "/a/video_converted.gif");
    assert_eq!(suggest_output(&PickOutputPayload::default()), "");
}

#[test]
fn the_file_name_is_built_from_the_stem() {
    assert_eq!(converted_file_name(Some("video".to_string()), "h264"), "video_converted.mp4");
    assert_eq!(converted_file_name(Some("  ".to_string()), "mp3"), "output_converted.mp3");
    assert_eq!(converted_file_name(Some("".to_string()), "gif"), "output_converted.gif");
    assert_eq!(converted_file_name(None, "anything"), "output_converted.mp4");
}

#[test]
fn the_file_name_is_placed_under_a_parent_that_is_not_empty() {
    assert_eq!(place_beside(None, "x.mp4".to_string()), "x.mp4");
    assert_eq!(place_beside(Some("".to_string()), "x.mp4".to_string()), "x.mp4");
    assert_eq!(place_beside(Some("/a/b".to_string()), "x.mp4".to_string()), "/a/b/x.mp4");
    assert_eq!(place_beside(Some("/".to_string()), "x.mp4".to_string()), "/x.mp4");
}

#[test]
fn extensions_of_presets() {
    assert_eq!(extension_for_preset("mp3"), ".mp3");
    assert_eq!(extension_for_preset("gif"), ".gif");
    assert_eq!(extension_for_preset("h264"), ".mp4");
    assert_eq!(extension_for_preset("h265"), ".mp4");
    assert_eq!(extension_for_preset(""), ".mp4");
    assert_eq!(extension_for_preset("MP3"), ".mp4");
}

#[test]
fn explicit_paths() {
    assert!(is_explicit_path("/usr/bin/ffmpeg"));
    assert!(is_explicit_path("bin/ffmpeg"));
    assert!(is_explicit_path(r"C:\ffmpeg\ffmpeg.exe"));
    assert!(is_explicit_path("./ffmpeg"));
    assert!(is_explicit_path(".ffmpeg"));
    assert!(!is_explicit_path("ffmpeg"));
    assert!(!is_explicit_path("ffmpeg.exe"));
    assert!(!is_explicit_path(""));
}

#[test]
fn the_search_lists() {
    assert_eq!(executable_candidates("ffmpeg"), vec!["/opt/homebrew/bin/ffmpeg", "/usr/local/bin/ffmpeg"]);
    assert_eq!(executable_candidates("ffprobe"), vec!["/opt/homebrew/bin/ffprobe", "/usr/local/bin/ffprobe"]);
    assert_eq!(executable_candidates("other"), vec!["/opt/homebrew/bin/ffmpeg", "/usr/local/bin/ffmpeg"]);
}

#[test]
fn an_explicit_path_is_taken_as_it_is() {
    assert_eq!(resolve_executable_path(Some(" /opt/x/ffmpeg "), "ffmpeg", &[true, true]), "/opt/x/ffmpeg");
    assert_eq!(resolve_executable_path(Some("./ffprobe"), "ffprobe", &[true, true]), "./ffprobe");
}

#[test]
fn a_bare_name_is_searched_for() {
    assert_eq!(resolve_executable_path(Some("ffmpeg"), "ffmpeg", &[true, true]), "/opt/homebrew/bin/ffmpeg");
    assert_eq!(resolve_executable_path(Some("ffmpeg"), "ffmpeg", &[false, true]), "/usr/local/bin/ffmpeg");
    assert_eq!(resolve_executable_path(Some("ffmpeg"), "ffmpeg", &[false, false]), "ffmpeg");
    assert_eq!(resolve_executable_path(Some("my-ffmpeg"), "ffmpeg", &[false, false]), "my-ffmpeg");
    assert_eq!(resolve_executable_path(Some("my-ffmpeg"), "ffmpeg", &[false, true]), "/usr/local/bin/ffmpeg");
    assert_eq!(resolve_executable_path(Some("ffmpeg"), "ffmpeg", &[]), "ffmpeg");
    assert_eq!(resolve_executable_path(Some("ffmpeg"), "ffmpeg", &[true]), "/opt/homebrew/bin/ffmpeg");
    assert_eq!(resolve_executable_path(Some("ffmpeg"), "ffmpeg", &[false, false, true]), "ffmpeg");
}

#[test]
fn a_missing_path_falls_back_to_the_tool_name() {
    assert_eq!(resolve_executable_path(None, "ffprobe", &[false, false]), "ffprobe");
    assert_eq!(resolve_executable_path(Some("  "), "ffprobe", &[false, true]), "/usr/local/bin/ffprobe");
    assert_eq!(resolve_executable_path(None, "ffmpeg", &[false, false]), "ffmpeg");
    assert_eq!(resolve_executable_path(None, "whatever", &[false, false]), "ffmpeg");
}

#[test]
fn a_missing_program_gets_a_hint() {
    assert_eq!(
        format_spawn_error(&SpawnFailure::NotFound, "ffmpeg", "ffmpeg", Platform::Unix),
        "未找到 ffmpeg 可执行文件。请先安装 FFmpeg（brew install ffmpeg），或在界面里填写 ffmpeg 的完整路径（例如 /opt/homebrew/bin/ffmpeg）。当前配置：ffmpeg"
    );
    assert_eq!(
        format_spawn_error(&SpawnFailure::NotFound, "ffprobe", "/x/ffprobe", Platform::Windows),
        "未找到 ffprobe 可执行文件。请先安装 FFmpeg（brew install ffmpeg），或在界面里填写 ffprobe 的完整路径（例如 C:\\\\ffmpeg\\\\bin\\\\ffprobe.exe）。当前配置：/x/ffprobe"
    );
    let hint = format_spawn_error(&SpawnFailure::NotFound, "other", "", Platform::Unix);
    assert!(hint.starts_with("未找到 ffmpeg "));
    assert!(hint.ends_with("当前配置："));
}

#[test]
fn any_other_spawn_failure_is_described_by_the_system() {
    let failure = SpawnFailure::Other("Permission denied (os error 13)".to_string());
    assert_eq!(
        format_spawn_error(&failure, "ffmpeg", "/x/ffmpeg", Platform::Unix),
        "Permission denied (os error 13)"
    );
}

#[test]
fn a_failed_command_is_described_by_its_error_stream_or_its_code() {
    assert_eq!(command_failure_message("  No such file\n", "ffprobe", Some(1)), "No such file");
    assert_eq!(command_failure_message(" \n", "ffprobe", Some(1)), "ffprobe 退出码 1");
    assert_eq!(command_failure_message("", "ffprobe", None), "ffprobe 退出码 -1");
    assert_eq!(command_failure_message("", "ffmpeg", Some(-11)), "ffmpeg 退出码 -11");
    assert_eq!(command_failure_message("", "ffmpeg", Some(i32::MIN)), "ffmpeg 退出码 -2147483648");
}

#[test]
fn the_probe_is_asked_for_json() {
    assert_eq!(
        probe_args("/in/a b.mov"),
        vec!["-v", "error", "-print_format", "json", "-show_format", "-show_streams", "/in/a b.mov"]
    );
}
