//! The core behaviors: filename parsing, query building, sanitizing and
//! canonical file names.

use mp3tag::models::TrackInfo;
use mp3tag::parser::{build_search_query, parse_filename};
use mp3tag::renamer::{build_filename, sanitize_filename};

#[test]
fn test_artist_title() {
    let info = parse_filename("IU - Blueming.mp3");
    assert_eq!(info.artist.as_deref(), Some("IU"));
    assert_eq!(info.title.as_deref(), Some("Blueming"));
}

#[test]
fn test_numbered_title() {
    let info = parse_filename("01. Blueming.mp3");
    assert_eq!(info.title.as_deref(), Some("Blueming"));
    assert!(info.artist.is_none());
}

#[test]
fn test_numbered_artist_title() {
    let info = parse_filename("01 IU - Blueming.mp3");
    assert_eq!(info.artist.as_deref(), Some("IU"));
    assert_eq!(info.title.as_deref(), Some("Blueming"));
}

#[test]
fn test_fallback() {
    let info = parse_filename("SomeSong.mp3");
    assert_eq!(info.title.as_deref(), Some("SomeSong"));
    assert!(info.artist.is_none());
}

#[test]
fn test_search_query() {
    let info = TrackInfo {
        title: Some("Blueming".to_string()),
        artist: Some("IU".to_string()),
        ..Default::default()
    };
    assert_eq!(build_search_query(&info), "IU Blueming");
}

#[test]
fn test_sanitize_filename_removes_slash_and_null() {
    assert_eq!(sanitize_filename("a/b\0c"), "a_b_c");
}

#[test]
fn test_sanitize_filename_normal_text() {
    assert_eq!(sanitize_filename("Hello World"), "Hello World");
}

#[test]
fn test_sanitize_filename_korean() {
    assert_eq!(sanitize_filename("아이유 - 좋은날"), "아이유 - 좋은날");
}

#[test]
fn test_build_filename_both_present() {
    let info = TrackInfo {
        artist: Some("IU".to_string()),
        title: Some("Good Day".to_string()),
        ..Default::default()
    };
    assert_eq!(build_filename(&info), Some("IU - Good Day.mp3".to_string()));
}

#[test]
fn test_build_filename_missing_artist() {
    let info = TrackInfo {
        title: Some("Good Day".to_string()),
        ..Default::default()
    };
    assert_eq!(build_filename(&info), None);
}

#[test]
fn test_build_filename_missing_title() {
    let info = TrackInfo {
        artist: Some("IU".to_string()),
        ..Default::default()
    };
    assert_eq!(build_filename(&info), None);
}

#[test]
fn test_build_filename_empty_strings() {
    let info = TrackInfo {
        artist: Some("".to_string()),
        title: Some("Good Day".to_string()),
        ..Default::default()
    };
    assert_eq!(build_filename(&info), None);
}

#[test]
fn test_build_filename_sanitizes() {
    let info = TrackInfo {
        artist: Some("AC/DC".to_string()),
        title: Some("Back\0Slash".to_string()),
        ..Default::default()
    };
    assert_eq!(
        build_filename(&info),
        Some("AC_DC - Back_Slash.mp3".to_string())
    );
}
