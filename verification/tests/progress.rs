use ffmpeg_task::progress::{
    parse_progress, progress_time_token, split_fields, timestamp_fields, Timestamp,
};

fn seconds_of(stamp: &Timestamp) -> Option<f64> {
    match stamp {
        Timestamp::Clock { hours, minutes, seconds } => {
            let hours = hours.parse::<f64>().ok()?;
            let minutes = minutes.parse::<f64>().ok()?;
            let seconds = seconds.parse::<f64>().ok()?;
            Some(hours * 3600.0 + minutes * 60.0 + seconds)
        }
        Timestamp::Plain(text) => text.parse::<f64>().ok(),
    }
}

fn ratio_of(elapsed: f64, duration: Option<f64>) -> Option<f64> {
    match duration {
        Some(duration) if duration.is_finite() && duration > 0.0 => {
            Some((elapsed / duration).clamp(0.0, 1.0))
        }
        _ => None,
    }
}

fn clock(hours: &str, minutes: &str, seconds: &str) -> Timestamp {
    Timestamp::Clock {
        hours: hours.to_string(),
        minutes: minutes.to_string(),
        seconds: seconds.to_string(),
    }
}

#[test]
fn parse_progress_extracts_ratio() {
    let progress = parse_progress(
        "frame=  240 fps=30 q=28.0 size=    1024kB time=00:00:10.00 bitrate= 838.9kbits/s speed=1.0x",
    )
    .expect("progress missing");

    assert_eq!(progress, clock("00", "00", "10.00"));
    let current_time_sec = seconds_of(&progress);
    assert_eq!(current_time_sec, Some(10.0));
    assert_eq!(ratio_of(10.0, Some(40.0)), Some(0.25));
    assert_eq!(ratio_of(10.0, None), None);
    assert_eq!(ratio_of(10.0, Some(0.0)), None);
}

#[test]
fn a_line_without_the_marker_has_no_progress() {
    assert_eq!(parse_progress("Stream #0:0: Video: h264"), None);
    assert_eq!(parse_progress(""), None);
    assert_eq!(parse_progress("tim e=00:00:01"), None);
    assert_eq!(progress_time_token("time 00:00:01"), None);
}

#[test]
fn a_marker_with_nothing_after_it_has_no_progress() {
    assert_eq!(parse_progress("size=1kB time="), None);
    assert_eq!(parse_progress("size=1kB time=   \t"), None);
}

#[test]
fn the_time_stamp_is_the_first_word_after_the_first_marker() {
    assert_eq!(progress_time_token("time=00:00:10.00 bitrate=1"), Some("00:00:10.00".to_string()));
    assert_eq!(progress_time_token("x time=  12.5\tbitrate=1"), Some("12.5".to_string()));
    assert_eq!(progress_time_token("time=1 time=2"), Some("1".to_string()));
    assert_eq!(progress_time_token("runtime=7"), Some("7".to_string()));
    assert_eq!(progress_time_token("a time=N/A b"), Some("N/A".to_string()));
    assert_eq!(progress_time_token("time=3"), Some("3".to_string()));
}

#[test]
fn time_stamps_split_into_their_fields() {
    assert_eq!(timestamp_fields("01:02:03.5"), clock("01", "02", "03.5"));
    assert_eq!(timestamp_fields(" 1:2:3 "), clock("1", "2", "3"));
    assert_eq!(timestamp_fields("::"), clock("", "", ""));
    assert_eq!(timestamp_fields("12.5"), Timestamp::Plain("12.5".to_string()));
    assert_eq!(timestamp_fields(" 90 "), Timestamp::Plain("90".to_string()));
    assert_eq!(timestamp_fields("02:03"), Timestamp::Plain("02:03".to_string()));
    assert_eq!(timestamp_fields("1:2:3:4"), Timestamp::Plain("1:2:3:4".to_string()));
    assert_eq!(timestamp_fields(""), Timestamp::Plain("".to_string()));
}

#[test]
fn elapsed_seconds_of_time_stamps() {
    assert_eq!(seconds_of(&timestamp_fields("01:02:03.5")), Some(3723.5));
    assert_eq!(seconds_of(&timestamp_fields("90")), Some(90.0));
    assert_eq!(seconds_of(&timestamp_fields("N/A")), None);
    assert_eq!(seconds_of(&timestamp_fields("00:xx:01")), None);
    assert_eq!(seconds_of(&timestamp_fields("02:03")), None);
}

#[test]
fn split_fields_keeps_empty_pieces() {
    assert_eq!(split_fields("a:b:c", ':'), vec!["a".to_string(), "b".to_string(), "c".to_string()]);
    assert_eq!(split_fields("", ':'), vec!["".to_string()]);
    assert_eq!(split_fields(":a:", ':'), vec!["".to_string(), "a".to_string(), "".to_string()]);
    assert_eq!(split_fields("abc", ':'), vec!["abc".to_string()]);
    for sample in ["", ":", "a::b", "00:00:10.00", "::::"] {
        let expected: Vec<String> = sample.split(':').map(|piece| piece.to_string()).collect();
        assert_eq!(split_fields(sample, ':'), expected);
    }
}
