use camo_rs::settings::{LogFormat, LogLevel, MaxLevel};
use camo_rs::Settings;

fn settings(audio: bool, image: bool, json: bool, video: bool) -> Settings {
    Settings {
        allow_audio: audio,
        allow_image: image,
        allow_json: json,
        allow_video: video,
        header_via: "camo-rs".to_owned(),
        key: "camo-rs".to_owned(),
        length_limit: 52428800,
        listen: "[::]:8081".to_owned(),
        log_format: LogFormat::TextColor,
        log_level: LogLevel::Quiet,
        root_url: "/".to_owned(),
        upstream_timeout: 10,
    }
}

#[test]
fn tracing_level_maps_each_log_level() {
    assert_eq!(LogLevel::Quiet.tracing_level(), MaxLevel::Error);
    assert_eq!(LogLevel::Warn.tracing_level(), MaxLevel::Warn);
    assert_eq!(LogLevel::Info.tracing_level(), MaxLevel::Info);
}

#[test]
fn a_configuration_without_audio_image_or_video_allows_nothing() {
    assert!(!settings(false, false, false, false).allows_any_content_type());
    assert!(!settings(false, false, true, false).allows_any_content_type());
    assert!(settings(true, false, false, false).allows_any_content_type());
    assert!(settings(false, true, false, false).allows_any_content_type());
    assert!(settings(false, false, false, true).allows_any_content_type());
    assert!(settings(true, true, true, true).allows_any_content_type());
}

#[test]
fn settings_can_be_cloned() {
    let original = settings(false, true, false, false);
    let copy = original.clone();
    assert_eq!(copy.root_url, "/");
    assert_eq!(copy.length_limit, 52428800);
    assert_eq!(copy.log_format, LogFormat::TextColor);
    assert!(copy.allow_image && !copy.allow_audio);
}
