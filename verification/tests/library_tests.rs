//! Behavior of the tag codec, the scanner, the rename planner and the two
//! catalog parsers, on concrete values.

use id3::TagLike;

use mp3tag::config::SpotifyConfig;
use mp3tag::melon::{
    detail_url_of, melon_apply_detail, melon_parse_detail, melon_parse_search, melon_row_to_track,
    melon_search_url, strip_resize_suffix, urlencoding,
};
use mp3tag::models::{non_empty, Mp3File, TrackInfo};
use mp3tag::parser::parse_filename;
use mp3tag::renamer::{build_filename_with, plan_rename, sanitize_filename_with, RenamePlan};
use mp3tag::sources::{MusicSource, SourceError};
use mp3tag::scanner::{is_mp3, load_mp3_file, sort_files, sort_paths, try_load_mp3_file};
use mp3tag::spotify::{
    basic_auth_value, convert_track, parse_year, SpotifyAlbum, SpotifyArtist, SpotifyImage,
    SpotifyTrack,
};
use mp3tag::strutil::parse_i32;
use mp3tag::tagger::{detect_mime_type, merge_tags, read_tags, write_tags};

fn track(title: Option<&str>, artist: Option<&str>) -> TrackInfo {
    TrackInfo {
        title: title.map(|s| s.to_string()),
        artist: artist.map(|s| s.to_string()),
        ..Default::default()
    }
}

#[test]
fn parse_digits_only_stem_falls_back_to_title() {
    let info = parse_filename("2001.mp3");
    assert_eq!(info.title.as_deref(), Some("2001"));
    assert!(info.artist.is_none());
    assert_eq!(info.source, "filename");
}

#[test]
fn parse_yields_nothing_without_a_file_name() {
    for path in ["..", "a/..", "", "."] {
        let info = parse_filename(path);
        assert!(info.title.is_none(), "path {path:?}");
        assert!(info.artist.is_none(), "path {path:?}");
        assert_eq!(info.source, "filename");
    }
}

#[test]
fn parse_uses_first_separator() {
    let info = parse_filename("IU - Blueming - Live.mp3");
    assert_eq!(info.artist.as_deref(), Some("IU"));
    assert_eq!(info.title.as_deref(), Some("Blueming - Live"));
}

#[test]
fn parse_strips_directories() {
    let info = parse_filename("music/k-pop/IU - Blueming.mp3");
    assert_eq!(info.artist.as_deref(), Some("IU"));
    assert_eq!(info.title.as_deref(), Some("Blueming"));
}

#[test]
fn search_query_empty_without_fields() {
    let info = track(None, None);
    assert_eq!(mp3tag::parser::build_search_query(&info), "");
}

#[test]
fn search_query_title_only() {
    let info = track(Some("Blueming"), None);
    assert_eq!(mp3tag::parser::build_search_query(&info), "Blueming");
}

#[test]
fn merge_is_right_biased_per_field() {
    let existing = Some(TrackInfo {
        title: Some("A".to_string()),
        source: "id3".to_string(),
        ..Default::default()
    });
    let incoming = TrackInfo {
        artist: Some("X".to_string()),
        source: "manual".to_string(),
        ..Default::default()
    };
    let merged = merge_tags(&existing, &incoming);
    assert_eq!(merged.title.as_deref(), Some("A"));
    assert_eq!(merged.artist.as_deref(), Some("X"));
    assert_eq!(merged.source, "manual");
}

#[test]
fn merge_without_existing_returns_incoming() {
    let incoming = TrackInfo {
        title: Some("B".to_string()),
        year: Some(2019),
        source: "spotify".to_string(),
        ..Default::default()
    };
    let merged = merge_tags(&None, &incoming);
    assert_eq!(merged.title.as_deref(), Some("B"));
    assert_eq!(merged.year, Some(2019));
    assert!(merged.artist.is_none());
    assert_eq!(merged.source, "spotify");
}

#[test]
fn merge_keeps_existing_art_when_incoming_has_none() {
    let existing = Some(TrackInfo {
        album_art: Some(vec![1, 2, 3]),
        source: "id3".to_string(),
        ..Default::default()
    });
    let incoming = TrackInfo {
        title: Some("T".to_string()),
        source: "manual".to_string(),
        ..Default::default()
    };
    let merged = merge_tags(&existing, &incoming);
    assert_eq!(merged.album_art, Some(vec![1, 2, 3]));
}

#[test]
fn detect_mime_png_and_jpeg() {
    assert_eq!(detect_mime_type(&[0x89, 0x50, 0x4E, 0x47, 0x0D, 0x0A]), "image/png");
    assert_eq!(detect_mime_type(&[0xFF, 0xD8, 0xFF, 0xE0]), "image/jpeg");
    assert_eq!(detect_mime_type(&[]), "image/jpeg");
}

#[test]
fn read_tags_of_empty_file_is_none() {
    assert!(matches!(read_tags(&[]), Ok(None)));
}

#[test]
fn write_then_read_roundtrip() {
    let info = TrackInfo {
        title: Some("Blueming".to_string()),
        artist: Some("IU".to_string()),
        album: Some("Love poem".to_string()),
        album_artist: Some("IU".to_string()),
        track_number: Some(3),
        year: Some(2019),
        genre: Some("K-Pop".to_string()),
        album_art: Some(vec![0x89, 0x50, 0x4E, 0x47, 1, 2, 3]),
        album_art_url: None,
        source: "manual".to_string(),
    };
    let image = write_tags(&[], &info).expect("writing the tag must succeed");
    let back = read_tags(&image).expect("reading back must succeed").expect("tags must be found");
    assert_eq!(back.title.as_deref(), Some("Blueming"));
    assert_eq!(back.artist.as_deref(), Some("IU"));
    assert_eq!(back.album.as_deref(), Some("Love poem"));
    assert_eq!(back.album_artist.as_deref(), Some("IU"));
    assert_eq!(back.track_number, Some(3));
    assert_eq!(back.year, Some(2019));
    assert_eq!(back.genre.as_deref(), Some("K-Pop"));
    assert_eq!(back.album_art, Some(vec![0x89, 0x50, 0x4E, 0x47, 1, 2, 3]));
    assert_eq!(back.source, "id3");
}

#[test]
fn write_preserves_untouched_fields() {
    let first = TrackInfo {
        artist: Some("IU".to_string()),
        source: "manual".to_string(),
        ..Default::default()
    };
    let image = write_tags(&[], &first).expect("first write must succeed");
    let second = TrackInfo {
        title: Some("Blueming".to_string()),
        source: "manual".to_string(),
        ..Default::default()
    };
    let image2 = write_tags(&image, &second).expect("second write must succeed");
    let back = read_tags(&image2).expect("reading back must succeed").expect("tags must be found");
    assert_eq!(back.artist.as_deref(), Some("IU"));
    assert_eq!(back.title.as_deref(), Some("Blueming"));
}

#[test]
fn read_tags_via_external_tag_writer() {
    let mut tag = id3::Tag::new();
    tag.set_title("사랑아");
    tag.set_artist("The One");
    let mut buf: Vec<u8> = Vec::new();
    tag.write_to(&mut buf, id3::Version::Id3v24).expect("encoding must succeed");
    let back = read_tags(&buf).expect("reading must succeed").expect("tags must be found");
    assert_eq!(back.title.as_deref(), Some("사랑아"));
    assert_eq!(back.artist.as_deref(), Some("The One"));
    assert_eq!(back.source, "id3");
}

#[test]
fn read_tags_treats_blank_fields_as_no_tags() {
    // A container whose only textual field is empty carries no usable tags.
    let info = TrackInfo {
        title: Some("".to_string()),
        source: "manual".to_string(),
        ..Default::default()
    };
    let image = write_tags(&[], &info).expect("write must succeed");
    assert!(matches!(read_tags(&image), Ok(None)));
}

#[test]
fn malformed_container_is_an_error_for_single_loads() {
    // A valid header announcing ten bytes of garbage frames.
    let mut bytes: Vec<u8> = b"ID3\x04\x00\x00\x00\x00\x00\x0A".to_vec();
    bytes.extend_from_slice(&[0xFF; 10]);
    assert!(read_tags(&bytes).is_err());
    assert!(try_load_mp3_file("x.mp3".to_string(), &bytes).is_err());
    // A scan records the same bytes as a file without tags.
    let scanned = load_mp3_file("x.mp3".to_string(), &bytes);
    assert!(!scanned.has_tags);
    assert!(scanned.current_tags.is_none());
}

#[test]
fn single_load_succeeds_on_tagged_bytes() {
    let info = track(Some("Blueming"), Some("IU"));
    let image = write_tags(&[], &info).expect("write must succeed");
    let file = try_load_mp3_file("a.mp3".to_string(), &image).expect("load must succeed");
    assert!(file.has_tags);
    assert_eq!(file.current_tags.unwrap().title.as_deref(), Some("Blueming"));
}

#[test]
fn is_mp3_checks_extension_case_insensitively() {
    assert!(is_mp3("song.mp3"));
    assert!(is_mp3("dir/sub/Song.MP3"));
    assert!(is_mp3("a.Mp3"));
    assert!(!is_mp3("song.wav"));
    assert!(!is_mp3("song"));
    assert!(!is_mp3(".mp3"));
    assert!(!is_mp3("song.mp31"));
}

#[test]
fn load_classifies_tagged_and_untagged() {
    let untagged = load_mp3_file("a.mp3".to_string(), &[]);
    assert!(!untagged.has_tags);
    assert!(untagged.current_tags.is_none());
    let info = track(Some("Blueming"), Some("IU"));
    let image = write_tags(&[], &info).expect("write must succeed");
    let tagged = load_mp3_file("b.mp3".to_string(), &image);
    assert!(tagged.has_tags);
    assert_eq!(tagged.current_tags.as_ref().unwrap().title.as_deref(), Some("Blueming"));
}

#[test]
fn scan_results_are_sorted_by_path() {
    let files = vec![
        load_mp3_file("b.mp3".to_string(), &[]),
        load_mp3_file("a/z.mp3".to_string(), &[]),
        load_mp3_file("a.mp3".to_string(), &[]),
    ];
    let sorted = sort_files(files);
    let paths: Vec<&str> = sorted.iter().map(|f| f.path.as_str()).collect();
    assert_eq!(paths, vec!["a.mp3", "a/z.mp3", "b.mp3"]);
}

#[test]
fn paths_are_sorted() {
    let paths = vec!["b".to_string(), "a/c".to_string(), "a".to_string()];
    assert_eq!(
        sort_paths(paths),
        vec!["a".to_string(), "a/c".to_string(), "b".to_string()]
    );
}

#[test]
fn rename_plan_is_noop_for_canonical_name() {
    let info = track(Some("Good Day"), Some("IU"));
    match plan_rename("music/IU - Good Day.mp3", &info) {
        RenamePlan::AlreadyNamed { path } => assert_eq!(path, "music/IU - Good Day.mp3"),
        _ => panic!("expected the plan to keep the name"),
    }
}

#[test]
fn rename_plan_moves_to_canonical_sibling() {
    let info = track(Some("Good Day"), Some("IU"));
    match plan_rename("music/track01.mp3", &info) {
        RenamePlan::MoveTo { target } => assert_eq!(target, "music/IU - Good Day.mp3"),
        _ => panic!("expected a move"),
    }
}

#[test]
fn rename_plan_requires_both_fields() {
    let info = track(Some("Good Day"), None);
    assert!(matches!(plan_rename("music/track01.mp3", &info), RenamePlan::MissingFields));
}

#[test]
fn sanitize_with_windows_rules() {
    assert_eq!(sanitize_filename_with("a:b*c?d", true, false), "a_b_c_d");
    assert_eq!(sanitize_filename_with("a:b", false, true), "a_b");
    assert_eq!(sanitize_filename_with("a:b", false, false), "a:b");
}

#[test]
fn build_filename_follows_the_given_rules() {
    let info = TrackInfo {
        artist: Some("AC/DC".to_string()),
        title: Some("a:b".to_string()),
        ..Default::default()
    };
    assert_eq!(
        build_filename_with(&info, true, false),
        Some("AC_DC - a_b.mp3".to_string())
    );
    assert_eq!(
        build_filename_with(&info, false, false),
        Some("AC_DC - a:b.mp3".to_string())
    );
}

struct FixedArtSource {
    art: Option<Vec<u8>>,
}

impl MusicSource for FixedArtSource {
    fn name(&self) -> String {
        "fixed".to_string()
    }

    fn search(&self, _query: &str) -> Result<Vec<TrackInfo>, SourceError> {
        Ok(Vec::new())
    }

    fn fetch_album_art(&self, _track: &TrackInfo) -> Result<Vec<u8>, SourceError> {
        match &self.art {
            Some(art) => Ok(art.clone()),
            None => Err(SourceError { message: "no art".to_string() }),
        }
    }
}

#[test]
fn fetch_detail_attaches_art_and_keeps_fields() {
    let source = FixedArtSource { art: Some(vec![9, 9, 9]) };
    let base = track(Some("Blueming"), Some("IU"));
    let detail = source.fetch_detail(&base).expect("detail must succeed");
    assert_eq!(detail.album_art, Some(vec![9, 9, 9]));
    assert_eq!(detail.title.as_deref(), Some("Blueming"));
    assert_eq!(detail.artist.as_deref(), Some("IU"));
    assert!(detail.album.is_none());

    let failing = FixedArtSource { art: None };
    assert!(failing.fetch_detail(&base).is_err());
}

#[test]
fn write_overwrites_an_existing_title() {
    let first = TrackInfo {
        title: Some("Old".to_string()),
        artist: Some("IU".to_string()),
        source: "manual".to_string(),
        ..Default::default()
    };
    let image = write_tags(&[], &first).expect("first write must succeed");
    let second = TrackInfo {
        title: Some("New".to_string()),
        source: "manual".to_string(),
        ..Default::default()
    };
    let image2 = write_tags(&image, &second).expect("second write must succeed");
    let back = read_tags(&image2).expect("reading back must succeed").expect("tags must be found");
    assert_eq!(back.title.as_deref(), Some("New"));
    assert_eq!(back.artist.as_deref(), Some("IU"));
}

#[test]
fn write_replaces_the_track_pair_with_the_number() {
    let first = TrackInfo {
        title: Some("T".to_string()),
        track_number: Some(3),
        source: "manual".to_string(),
        ..Default::default()
    };
    let image = write_tags(&[], &first).expect("first write must succeed");
    let second = TrackInfo {
        track_number: Some(5),
        source: "manual".to_string(),
        ..Default::default()
    };
    let image2 = write_tags(&image, &second).expect("second write must succeed");
    let back = read_tags(&image2).expect("reading back must succeed").expect("tags must be found");
    assert_eq!(back.track_number, Some(5));
}

#[test]
fn urlencoding_keeps_safe_bytes_and_escapes_the_rest() {
    assert_eq!(urlencoding("IU Blueming"), "IU+Blueming");
    assert_eq!(urlencoding("a-b_c.d~e"), "a-b_c.d~e");
    assert_eq!(urlencoding("한"), "%ED%95%9C");
    assert_eq!(urlencoding("a&b"), "a%26b");
}

#[test]
fn search_url_embeds_encoded_query() {
    assert_eq!(
        melon_search_url("IU Blueming"),
        "https://www.melon.com/search/song/index.htm?q=IU+Blueming&section=&searchGnbYn=Y&kkoSpl=N&kkoDpType="
    );
}

#[test]
fn strip_resize_suffix_recovers_original() {
    assert_eq!(
        strip_resize_suffix("https://cdn.example/album.jpg/melon/resize/120/quality/80"),
        "https://cdn.example/album.jpg"
    );
    assert_eq!(strip_resize_suffix("https://cdn.example/album.jpg"), "https://cdn.example/album.jpg");
}

#[test]
fn melon_row_requires_a_title() {
    assert!(melon_row_to_track("123", "", "IU", "Love poem").is_none());
    let t = melon_row_to_track("1631371", "사랑아", "The One", "").expect("row must be kept");
    assert_eq!(t.title.as_deref(), Some("사랑아"));
    assert_eq!(t.artist.as_deref(), Some("The One"));
    assert!(t.album.is_none());
    assert_eq!(
        t.album_art_url.as_deref(),
        Some("https://www.melon.com/song/detail.htm?songId=1631371")
    );
    assert_eq!(t.source, "melon");
    assert_eq!(detail_url_of("7"), "https://www.melon.com/song/detail.htm?songId=7");
}

#[test]
fn melon_search_page_rows_are_extracted() {
    let html = "<html><body><table>\
        <tr><td>header row, skipped</td></tr>\
        <tr>\
          <td><input class=\"input_check\" value=\"1631371\"></td>\
          <td><a class=\"fc_gray\" title=\"사랑아\">사랑아</a></td>\
          <td><div id=\"artistName\"><a class=\"fc_mgray\"> The One </a></div></td>\
          <td><a class=\"fc_mgray\" href=\"/album/detail?albumId=9\">내 남자의 여자 OST</a></td>\
        </tr>\
        <tr>\
          <td><input class=\"input_check\" value=\"9\"></td>\
          <td><a class=\"fc_gray\" title=\"\">untitled, skipped</a></td>\
        </tr>\
        </table></body></html>";
    let results = melon_parse_search(html).expect("parsing must succeed");
    assert_eq!(results.len(), 1);
    let t = &results[0];
    assert_eq!(t.title.as_deref(), Some("사랑아"));
    assert_eq!(t.artist.as_deref(), Some("The One"));
    assert_eq!(t.album.as_deref(), Some("내 남자의 여자 OST"));
    assert_eq!(
        t.album_art_url.as_deref(),
        Some("https://www.melon.com/song/detail.htm?songId=1631371")
    );
    assert_eq!(t.source, "melon");
    assert!(t.album_art.is_none());
}

#[test]
fn melon_detail_page_fills_fields_and_art_url() {
    let base = melon_row_to_track("1631371", "사랑아", "The One", "").expect("row must be kept");
    let html = "<html><body>\
        <div class=\"meta\"><dl class=\"list\">\
          <dt>발매일</dt><dd>2007.05.07</dd>\
          <dt>장르</dt><dd>국내드라마</dd>\
          <dt>앨범</dt><dd>내 남자의 여자 OST</dd>\
        </dl></div>\
        <div id=\"d_song_org\"><img src=\"https://cdn.example/970_500.jpg/melon/resize/120/quality/80\"></div>\
        </body></html>";
    let (detail, art_url) = melon_parse_detail(&base, html).expect("parsing must succeed");
    assert_eq!(detail.year, Some(2007));
    assert_eq!(detail.genre.as_deref(), Some("국내드라마"));
    assert_eq!(detail.album.as_deref(), Some("내 남자의 여자 OST"));
    assert_eq!(detail.title.as_deref(), Some("사랑아"));
    assert_eq!(detail.artist.as_deref(), Some("The One"));
    assert_eq!(art_url.as_deref(), Some("https://cdn.example/970_500.jpg"));
}

#[test]
fn melon_labels_overwrite_only_when_non_empty() {
    let base = track(Some("T"), Some("A"));
    let labels = vec![
        ("발매일".to_string(), "2007.05.07".to_string()),
        ("장르".to_string(), "".to_string()),
        ("앨범".to_string(), "OST".to_string()),
        ("기타".to_string(), "ignored".to_string()),
    ];
    let out = melon_apply_detail(&base, &labels);
    assert_eq!(out.year, Some(2007));
    assert!(out.genre.is_none());
    assert_eq!(out.album.as_deref(), Some("OST"));
}

#[test]
fn parse_year_takes_leading_component() {
    assert_eq!(parse_year(&Some("2019-11-18".to_string())), Some(2019));
    assert_eq!(parse_year(&Some("2019".to_string())), Some(2019));
    assert_eq!(parse_year(&Some("abc".to_string())), None);
    assert_eq!(parse_year(&None), None);
}

#[test]
fn parse_i32_boundaries() {
    assert_eq!(parse_i32("2147483647"), Some(2147483647));
    assert_eq!(parse_i32("2147483648"), None);
    assert_eq!(parse_i32("-2147483648"), Some(i32::MIN));
    assert_eq!(parse_i32("+5"), Some(5));
    assert_eq!(parse_i32(""), None);
    assert_eq!(parse_i32("-"), None);
    assert_eq!(parse_i32("12a"), None);
}

#[test]
fn convert_track_joins_artists_and_picks_widest_image() {
    let t = SpotifyTrack {
        name: "Blueming".to_string(),
        artists: vec![
            SpotifyArtist { name: "IU".to_string() },
            SpotifyArtist { name: "Someone".to_string() },
        ],
        album: SpotifyAlbum {
            name: "Love poem".to_string(),
            release_date: Some("2019-11-18".to_string()),
            images: vec![
                SpotifyImage { url: "small".to_string(), width: Some(300) },
                SpotifyImage { url: "large".to_string(), width: Some(640) },
                SpotifyImage { url: "unknown".to_string(), width: None },
            ],
        },
        track_number: 1,
    };
    let info = convert_track(&t);
    assert_eq!(info.title.as_deref(), Some("Blueming"));
    assert_eq!(info.artist.as_deref(), Some("IU, Someone"));
    assert_eq!(info.album.as_deref(), Some("Love poem"));
    assert_eq!(info.album_artist.as_deref(), Some("IU"));
    assert_eq!(info.track_number, Some(1));
    assert_eq!(info.year, Some(2019));
    assert_eq!(info.album_art_url.as_deref(), Some("large"));
    assert_eq!(info.source, "spotify");
    assert!(info.album_art.is_none());
    assert!(info.genre.is_none());
}

#[test]
fn convert_track_prefers_last_of_equal_widths() {
    let t = SpotifyTrack {
        name: "X".to_string(),
        artists: vec![SpotifyArtist { name: "A".to_string() }],
        album: SpotifyAlbum {
            name: "Y".to_string(),
            release_date: None,
            images: vec![
                SpotifyImage { url: "first".to_string(), width: Some(300) },
                SpotifyImage { url: "second".to_string(), width: Some(300) },
            ],
        },
        track_number: 2,
    };
    let info = convert_track(&t);
    assert_eq!(info.album_art_url.as_deref(), Some("second"));
    assert_eq!(info.year, None);
}

#[test]
fn basic_auth_value_encodes_credentials() {
    assert_eq!(basic_auth_value("id", "secret"), "Basic aWQ6c2VjcmV0");
}

#[test]
fn config_requires_both_credentials() {
    let full = SpotifyConfig {
        client_id: Some("id".to_string()),
        client_secret: Some("secret".to_string()),
    };
    assert!(full.is_configured());
    let empty_id = SpotifyConfig {
        client_id: Some("".to_string()),
        client_secret: Some("secret".to_string()),
    };
    assert!(!empty_id.is_configured());
    let missing = SpotifyConfig { client_id: None, client_secret: Some("secret".to_string()) };
    assert!(!missing.is_configured());
}

#[test]
fn display_and_summary_use_placeholders() {
    let info = track(Some("Blueming"), Some("IU"));
    assert_eq!(info.display_title(), "Blueming");
    assert_eq!(info.display_album(), "알 수 없음");
    assert_eq!(info.summary(), "IU - Blueming [알 수 없음]");
}

#[test]
fn mp3file_filename_is_the_last_component() {
    let f = Mp3File { path: "a/b/c.mp3".to_string(), current_tags: None, has_tags: false };
    assert_eq!(f.filename(), "c.mp3");
    let g = Mp3File { path: "c.mp3".to_string(), current_tags: None, has_tags: false };
    assert_eq!(g.filename(), "c.mp3");
}

#[test]
fn mp3file_filename_ignores_trailing_separators() {
    let f = Mp3File { path: "a/b/".to_string(), current_tags: None, has_tags: false };
    assert_eq!(f.filename(), "b");
    let g = Mp3File { path: "a/b/.".to_string(), current_tags: None, has_tags: false };
    assert_eq!(g.filename(), "b");
}

#[test]
fn mp3file_filename_placeholder_without_a_name() {
    for path in ["", "/", ".", "songs/..", ".."] {
        let f = Mp3File { path: path.to_string(), current_tags: None, has_tags: false };
        assert_eq!(f.filename(), "알 수 없음", "path {path:?}");
    }
}

#[test]
fn non_empty_trims() {
    assert_eq!(non_empty("  "), None);
    assert_eq!(non_empty(" x "), Some("x".to_string()));
}
