//! Paths: the output path proposed for an input, the program that is run,
//! and what is said when it cannot be run.

use std::path::Path;
use vstd::prelude::*;
use crate::request::{preset_name, preset_or_default, PickOutputPayload};
use crate::text::{
    chars_of, decimal, decimal_text, has_text, nonblank, option_text, str_view, text_eq,
    text_from_option, text_view, texts, trim, trimmed,
};

verus! {

/// What `Path::file_stem` gives for a path, where the stem is valid text:
/// the last component of the path without its extension. The rules are those
/// of the path syntax that the program is built for.
pub uninterp spec fn path_file_stem(path: Seq<char>) -> Option<Seq<char>>;

/// What `Path::parent` gives for a path: the path without its last component,
/// if it has one.
pub uninterp spec fn path_parent(path: Seq<char>) -> Option<Seq<char>>;

/// What `Path::join` gives: `name` placed under the directory `parent`.
pub uninterp spec fn path_joined(parent: Seq<char>, name: Seq<char>) -> Seq<char>;

/// `Path::file_stem` on a path given as text, with the stem as text. The
/// result is the stem that the standard library finds in `path`, and nothing
/// else is claimed of it.
#[verifier::external_body]
fn file_stem_of(path: &str) -> (stem: Option<String>)
    ensures
        text_view(stem) == path_file_stem(path@),
{
    Some(Path::new(path).file_stem()?.to_str()?.to_string())
}

/// `Path::parent` on a path given as text. The result is the parent that the
/// standard library finds in `path`, and nothing else is claimed of it.
#[verifier::external_body]
fn parent_of(path: &str) -> (parent: Option<String>)
    ensures
        text_view(parent) == path_parent(path@),
{
    Some(Path::new(path).parent()?.to_string_lossy().into_owned())
}

/// `Path::join` on a directory and a file name given as text. The result is
/// the path that the standard library builds, and nothing else is claimed of
/// it.
#[verifier::external_body]
fn join_path(parent: &str, name: &str) -> (joined: String)
    ensures
        joined@ == path_joined(parent@, name@),
{
    Path::new(parent).join(name).to_string_lossy().into_owned()
}

/// The file extension of a preset's output: `.mp3`, `.gif`, and `.mp4` for
/// every other preset.
pub open spec fn extension_of(preset: Seq<char>) -> Seq<char> {
    if preset == "mp3"@ {
        ".mp3"@
    } else if preset == "gif"@ {
        ".gif"@
    } else {
        ".mp4"@
    }
}

/// The stem of the proposed file: the input's, or `output` when the input
/// has none or a blank one.
pub open spec fn output_stem(stem: Option<Seq<char>>) -> Seq<char> {
    match stem {
        Some(s) => if nonblank(s) {
            s
        } else {
            "output"@
        },
        None => "output"@,
    }
}

/// The proposed file name: the stem, `_converted`, and the preset's
/// extension.
pub open spec fn converted_name(stem: Option<Seq<char>>, preset: Seq<char>) -> Seq<char> {
    output_stem(stem) + "_converted"@ + extension_of(preset)
}

/// The file name under its parent directory, or alone when there is no
/// parent or an empty one.
pub open spec fn placed(parent: Option<Seq<char>>, name: Seq<char>) -> Seq<char> {
    match parent {
        Some(p) => if p.len() > 0 {
            path_joined(p, name)
        } else {
            name
        },
        None => name,
    }
}

/// The output path proposed for an input path and a preset: nothing for a
/// blank input, else the converted file name beside the input.
pub open spec fn suggested_path(input: Seq<char>, preset: Seq<char>) -> Seq<char> {
    if !nonblank(input) {
        Seq::empty()
    } else {
        placed(path_parent(input), converted_name(path_file_stem(input), preset))
    }
}

/// A program name that is a path of its own and is not searched for: one
/// with a slash or a backslash in it, or with a dot in front.
pub open spec fn explicit_path(path: Seq<char>) -> bool {
    path.contains('/') || path.contains('\\') || (path.len() > 0 && path[0] == '.')
}

/// The bare program name of a tool: `ffprobe` for the tool of that name,
/// `ffmpeg` for every other.
pub open spec fn tool_program(tool_name: Seq<char>) -> Seq<char> {
    if tool_name == "ffprobe"@ {
        "ffprobe"@
    } else {
        "ffmpeg"@
    }
}

/// The program that is configured: the trimmed path, or the tool's bare name
/// when the path is absent or blank.
pub open spec fn configured_program(raw_path: Option<Seq<char>>, tool_name: Seq<char>) -> Seq<
    char,
> {
    match raw_path {
        Some(p) => if nonblank(trimmed(p)) {
            trimmed(p)
        } else {
            tool_program(tool_name)
        },
        None => tool_program(tool_name),
    }
}

/// The places where a tool is looked for, in order.
pub open spec fn search_list(tool_name: Seq<char>) -> Seq<Seq<char>> {
    if tool_name == "ffprobe"@ {
        seq!["/opt/homebrew/bin/ffprobe"@, "/usr/local/bin/ffprobe"@]
    } else {
        seq!["/opt/homebrew/bin/ffmpeg"@, "/usr/local/bin/ffmpeg"@]
    }
}

/// The first position from `from` on, below `limit`, at which `found` says
/// yes; `limit` when there is none.
pub open spec fn first_found(found: Seq<bool>, from: int, limit: int) -> int
    decreases limit - from,
{
    if from >= limit {
        limit
    } else if 0 <= from < found.len() && found[from] {
        from
    } else {
        first_found(found, from + 1, limit)
    }
}

/// The program that is run. `found[i]` says whether place `i` of the search
/// list exists. An explicit path is taken as it is; else the first place of
/// the list that exists; else the configured name.
pub open spec fn resolved_program(
    raw_path: Option<Seq<char>>,
    tool_name: Seq<char>,
    found: Seq<bool>,
) -> Seq<char> {
    let configured = configured_program(raw_path, tool_name);
    let places = search_list(tool_name);
    let at = first_found(found, 0, places.len() as int);
    if explicit_path(configured) {
        configured
    } else if at < places.len() {
        places[at]
    } else {
        configured
    }
}

/// Why a program could not be started.
#[derive(Debug, Clone, PartialEq, Eq)]
pub enum SpawnFailure {
    /// There is no such program.
    NotFound,
    /// Any other reason, with the system's description of it.
    Other(String),
}

/// The platform whose paths the hint shows.
#[derive(Debug, Clone, Copy, PartialEq, Eq)]
pub enum Platform {
    Windows,
    Unix,
}

/// The example path that the hint shows for a tool.
pub open spec fn example_path(name: Seq<char>, platform: Platform) -> Seq<char> {
    match platform {
        Platform::Windows => "C:\\\\ffmpeg\\\\bin\\\\"@ + name + ".exe"@,
        Platform::Unix => "/opt/homebrew/bin/"@ + name,
    }
}

/// What is said when a tool cannot be started: for a missing program a hint
/// that names the tool, an example path and the configured path; for any
/// other failure its description.
pub open spec fn spawn_error_text(
    failure: SpawnFailure,
    tool_name: Seq<char>,
    configured_path: Seq<char>,
    platform: Platform,
) -> Seq<char> {
    let name = tool_program(tool_name);
    match failure {
        SpawnFailure::NotFound => "未找到 "@ + name
            + " 可执行文件。请先安装 FFmpeg（brew install ffmpeg），或在界面里填写 "@ + name
            + " 的完整路径（例如 "@ + example_path(name, platform) + "）。当前配置："@
            + configured_path,
        SpawnFailure::Other(description) => description@,
    }
}

/// What is said when a tool ran and failed: what it wrote to its error
/// stream, trimmed, or its exit code when it wrote nothing; -1 stands for a
/// code that the platform did not give.
pub open spec fn command_failure_text(
    stderr: Seq<char>,
    tool_name: Seq<char>,
    exit_code: Option<i32>,
) -> Seq<char> {
    if nonblank(stderr) {
        trimmed(stderr)
    } else {
        tool_name + " 退出码 "@ + decimal(
            match exit_code {
                Some(code) => code as int,
                None => -1,
            },
        )
    }
}

/// The arguments that make the probe describe `input_path` as JSON.
pub open spec fn probe_args_of(input_path: Seq<char>) -> Seq<Seq<char>> {
    seq![
        "-v"@,
        "error"@,
        "-print_format"@,
        "json"@,
        "-show_format"@,
        "-show_streams"@,
        input_path,
    ]
}

/// The file extension of a preset's output.
pub fn extension_for_preset(preset: &str) -> (r: &'static str)
    ensures
        r@ == extension_of(preset@),
{
    if text_eq(preset, "mp3") {
        ".mp3"
    } else if text_eq(preset, "gif") {
        ".gif"
    } else {
        ".mp4"
    }
}

/// The proposed file name for the stem of an input path, if it has one, and
/// a preset.
pub fn converted_file_name(stem: Option<String>, preset: &str) -> (r: String)
    ensures
        r@ == converted_name(text_view(stem), preset@),
{
    let mut name = match stem {
        Some(s) => {
            if has_text(s.as_str()) {
                s
            } else {
                "output".to_string()
            }
        },
        None => "output".to_string(),
    };
    name.append("_converted");
    name.append(extension_for_preset(preset));
    name
}

/// The file name under its parent directory, or alone when there is no
/// parent or an empty one.
pub fn place_beside(parent: Option<String>, file_name: String) -> (r: String)
    ensures
        r@ == placed(text_view(parent), file_name@),
{
    match parent {
        Some(p) => {
            if p.as_str().is_empty() {
                file_name
            } else {
                join_path(p.as_str(), file_name.as_str())
            }
        },
        None => file_name,
    }
}

/// The output path proposed for an input path and a preset: the input's stem
/// with `_converted` and the preset's extension, in the input's directory.
/// A blank input gives the empty string.
pub fn suggest_output_path(input_path: &str, preset: &str) -> (r: String)
    ensures
        r@ == suggested_path(input_path@, preset@),
{
    if !has_text(input_path) {
        return String::new();
    }
    let file_name = converted_file_name(file_stem_of(input_path), preset);
    place_beside(parent_of(input_path), file_name)
}

/// The output path proposed for a request, with `h264` for a preset that is
/// not named.
pub fn suggest_output(payload: &PickOutputPayload) -> (r: String)
    ensures
        r@ == suggested_path(option_text(payload@.input_path), preset_name(payload@.preset)),
{
    let input_path = text_from_option(&payload.input_path);
    let preset = preset_or_default(&payload.preset);
    suggest_output_path(input_path.as_str(), preset.as_str())
}

/// Whether a program name is a path of its own.
pub fn is_explicit_path(path: &str) -> (r: bool)
    ensures
        r == explicit_path(path@),
{
    let chars = chars_of(path);
    if chars.len() > 0 && chars[0] == '.' {
        return true;
    }
    let mut i: usize = 0;
    while i < chars.len()
        invariant
            i <= chars.len(),
            chars@ == path@,
            forall|j: int| 0 <= j < i ==> chars@[j] != '/' && chars@[j] != '\\',
        decreases chars.len() - i,
    {
        if chars[i] == '/' || chars[i] == '\\' {
            return true;
        }
        i = i + 1;
    }
    false
}

/// The places where a tool is looked for, in order.
pub fn executable_candidates(tool_name: &str) -> (r: Vec<String>)
    ensures
        texts(r@) == search_list(tool_name@),
{
    let mut places: Vec<String> = Vec::new();
    if text_eq(tool_name, "ffprobe") {
        places.push("/opt/homebrew/bin/ffprobe".to_string());
        places.push("/usr/local/bin/ffprobe".to_string());
    } else {
        places.push("/opt/homebrew/bin/ffmpeg".to_string());
        places.push("/usr/local/bin/ffmpeg".to_string());
    }
    assert(texts(places@) =~= search_list(tool_name@));
    places
}

/// The program that is run for a tool.
///
/// `found[i]` says whether place `i` of `executable_candidates(tool_name)`
/// exists on this machine; places that `found` does not reach count as
/// absent.
pub fn resolve_executable_path(raw_path: Option<&str>, tool_name: &str, found: &[bool]) -> (r:
    String)
    ensures
        r@ == resolved_program(str_view(raw_path), tool_name@, found@),
{
    let fallback = if text_eq(tool_name, "ffprobe") {
        "ffprobe"
    } else {
        "ffmpeg"
    };
    let configured = match raw_path {
        Some(value) => {
            let text = trim(value);
            if has_text(text.as_str()) {
                text
            } else {
                fallback.to_string()
            }
        },
        None => fallback.to_string(),
    };
    if is_explicit_path(configured.as_str()) {
        return configured;
    }
    let candidates = executable_candidates(tool_name);
    let ghost places = search_list(tool_name@);
    let mut i: usize = 0;
    while i < candidates.len()
        invariant
            i <= candidates.len(),
            texts(candidates@) == places,
            places == search_list(tool_name@),
            configured@ == configured_program(str_view(raw_path), tool_name@),
            !explicit_path(configured@),
            first_found(found@, 0, places.len() as int) == first_found(
                found@,
                i as int,
                places.len() as int,
            ),
        decreases candidates.len() - i,
    {
        if i < found.len() && found[i] {
            assert(texts(candidates@)[i as int] == candidates@[i as int]@);
            return candidates[i].clone();
        }
        i = i + 1;
    }
    configured
}

/// What is said when a tool cannot be started.
pub fn format_spawn_error(
    failure: &SpawnFailure,
    tool_name: &str,
    configured_path: &str,
    platform: Platform,
) -> (r: String)
    ensures
        r@ == spawn_error_text(*failure, tool_name@, configured_path@, platform),
{
    let name = if text_eq(tool_name, "ffprobe") {
        "ffprobe"
    } else {
        "ffmpeg"
    };
    match failure {
        SpawnFailure::NotFound => {
            let mut example = match platform {
                Platform::Windows => {
                    let mut text = "C:\\\\ffmpeg\\\\bin\\\\".to_string();
                    text.append(name);
                    text.append(".exe");
                    text
                },
                Platform::Unix => {
                    let mut text = "/opt/homebrew/bin/".to_string();
                    text.append(name);
                    text
                },
            };
            let mut message = "未找到 ".to_string();
            message.append(name);
            message.append(" 可执行文件。请先安装 FFmpeg（brew install ffmpeg），或在界面里填写 ");
            message.append(name);
            message.append(" 的完整路径（例如 ");
            message.append(example.as_str());
            message.append("）。当前配置：");
            message.append(configured_path);
            message
        },
        SpawnFailure::Other(description) => description.clone(),
    }
}

/// What is said when a tool ran and failed.
pub fn command_failure_message(stderr: &str, tool_name: &str, exit_code: Option<i32>) -> (r:
    String)
    ensures
        r@ == command_failure_text(stderr@, tool_name@, exit_code),
{
    if has_text(stderr) {
        return trim(stderr);
    }
    let code: i64 = match exit_code {
        Some(code) => code as i64,
        None => -1,
    };
    let mut message = tool_name.to_string();
    message.append(" 退出码 ");
    message.append(decimal_text(code).as_str());
    message
}

/// The arguments that make the probe describe `input_path` as JSON.
pub fn probe_args(input_path: &str) -> (r: Vec<String>)
    ensures
        texts(r@) == probe_args_of(input_path@),
{
    let mut args: Vec<String> = Vec::new();
    args.push("-v".to_string());
    args.push("error".to_string());
    args.push("-print_format".to_string());
    args.push("json".to_string());
    args.push("-show_format".to_string());
    args.push("-show_streams".to_string());
    args.push(input_path.to_string());
    assert(texts(args@) =~= probe_args_of(input_path@));
    args
}

} // verus!
