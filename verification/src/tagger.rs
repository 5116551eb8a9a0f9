//! The tag codec: reads an embedded metadata container from an MP3 file
//! image into a record, merges records field by field with incoming
//! precedence, and writes a record back into a file image, touching only the
//! fields the record carries. The container encoding is id3's work; it is
//! modeled by names for the parse outcome of a byte image, the fields a
//! container carries, and the image the encoder produces, so that what this
//! module reads and writes is pinned exactly.

use vstd::prelude::*;

use id3::TagLike;

use crate::models::{clone_opt_bytes, clone_opt_string, TrackInfo, TrackInfoV};

verus! {

/// A failure of the tag codec, carrying the underlying description.
#[derive(Debug)]
pub struct TagError {
    pub message: String,
}

#[verifier::external_type_specification]
#[verifier::external_body]
pub struct ExId3Tag(id3::Tag);

/// The fields of a metadata container, as this library reads them: the
/// textual fields, the parsed track number and year, the genre with ID3v1
/// indices resolved, and the embedded pictures as (MIME type, bytes) pairs
/// in frame order.
pub ghost struct TagFieldsV {
    pub title: Option<Seq<char>>,
    pub artist: Option<Seq<char>>,
    pub album: Option<Seq<char>>,
    pub album_artist: Option<Seq<char>>,
    pub track_number: Option<u32>,
    pub year: Option<i32>,
    pub genre: Option<Seq<char>>,
    pub pictures: Seq<(Seq<char>, Seq<u8>)>,
}

/// A container with no fields and no pictures.
pub open spec fn empty_tag_fields() -> TagFieldsV {
    TagFieldsV {
        title: None,
        artist: None,
        album: None,
        album_artist: None,
        track_number: None,
        year: None,
        genre: None,
        pictures: Seq::empty(),
    }
}

/// What parsing a byte image yields: no container at all, a malformed
/// container, or a container with its fields.
pub ghost enum Id3OutcomeV {
    NoContainer,
    Malformed,
    Fields { fields: TagFieldsV },
}

/// A name for what id3's parser yields on a byte image: the outcome depends
/// on the bytes alone.
pub uninterp spec fn id3_outcome(data: Seq<u8>) -> Id3OutcomeV;

/// A name for the fields a container value carries, as the getters below
/// read them.
pub uninterp spec fn tag_fields(t: id3::Tag) -> TagFieldsV;

/// A name for id3's TCON genre decoding (`tcon::Parser::parse_tcon`), which
/// resolves ID3v1 genre indices and depends on the text alone.
pub uninterp spec fn id3_genre_decode(raw: Seq<char>) -> Seq<char>;

/// A name for the image id3's encoder produces when a container is written
/// into a byte image as ID3v2.4 (absent when encoding fails): it depends on
/// the container and the prior image alone.
pub uninterp spec fn id3_write_of(t: id3::Tag, data: Seq<u8>) -> Option<Seq<u8>>;

/// Relies on `id3::Tag::read_from2`: parses an ID3 container from the bytes
/// of an MP3 file; a `NoTag` error means the file carries no container, any
/// other error a malformed one. Parsing is a function of the bytes alone.
#[verifier::external_body]
fn tag_parse(data: &[u8]) -> (r: Result<Option<id3::Tag>, TagError>)
    ensures
        match r {
            Ok(Some(t)) => id3_outcome(data@) == (Id3OutcomeV::Fields { fields: tag_fields(t) }),
            Ok(None) => id3_outcome(data@) is NoContainer,
            Err(_) => id3_outcome(data@) is Malformed,
        },
{
    match id3::Tag::read_from2(std::io::Cursor::new(data)) {
        Ok(tag) => Ok(Some(tag)),
        Err(id3::Error { kind: id3::ErrorKind::NoTag, .. }) => Ok(None),
        Err(e) => Err(TagError { message: e.description }),
    }
}

/// Relies on `id3::Tag::new`: an empty container.
#[verifier::external_body]
fn tag_new() -> (r: id3::Tag)
    ensures
        tag_fields(r) == empty_tag_fields(),
{
    id3::Tag::new()
}

/// Relies on `id3::TagLike::title`, as `Tag` implements it.
#[verifier::external_body]
fn tag_title(tag: &id3::Tag) -> (r: Option<String>)
    ensures
        r.deep_view() == tag_fields(*tag).title,
{
    tag.title().map(|s| s.to_string())
}

/// Relies on `id3::TagLike::artist`, as `Tag` implements it.
#[verifier::external_body]
fn tag_artist(tag: &id3::Tag) -> (r: Option<String>)
    ensures
        r.deep_view() == tag_fields(*tag).artist,
{
    tag.artist().map(|s| s.to_string())
}

/// Relies on `id3::TagLike::album`, as `Tag` implements it.
#[verifier::external_body]
fn tag_album(tag: &id3::Tag) -> (r: Option<String>)
    ensures
        r.deep_view() == tag_fields(*tag).album,
{
    tag.album().map(|s| s.to_string())
}

/// Relies on `id3::TagLike::album_artist`, as `Tag` implements it.
#[verifier::external_body]
fn tag_album_artist(tag: &id3::Tag) -> (r: Option<String>)
    ensures
        r.deep_view() == tag_fields(*tag).album_artist,
{
    tag.album_artist().map(|s| s.to_string())
}

/// Relies on `id3::TagLike::track`, as `Tag` implements it.
#[verifier::external_body]
fn tag_track(tag: &id3::Tag) -> (r: Option<u32>)
    ensures
        r == tag_fields(*tag).track_number,
{
    tag.track()
}

/// Relies on `id3::TagLike::year`, as `Tag` implements it.
#[verifier::external_body]
fn tag_year(tag: &id3::Tag) -> (r: Option<i32>)
    ensures
        r == tag_fields(*tag).year,
{
    tag.year()
}

/// Relies on `id3::TagLike::genre_parsed`, as `Tag` implements it: the genre
/// with ID3v1 indices resolved.
#[verifier::external_body]
fn tag_genre(tag: &id3::Tag) -> (r: Option<String>)
    ensures
        r.deep_view() == tag_fields(*tag).genre,
{
    tag.genre_parsed().map(|s| s.to_string())
}

/// Relies on `id3::Tag::pictures`: the bytes of the first embedded picture,
/// in frame order.
#[verifier::external_body]
fn tag_first_picture(tag: &id3::Tag) -> (r: Option<Vec<u8>>)
    ensures
        r.deep_view() == (if tag_fields(*tag).pictures.len() > 0 {
            Some(tag_fields(*tag).pictures[0].1)
        } else {
            None
        }),
{
    tag.pictures().next().map(|pic| pic.data.clone())
}

/// Relies on `id3::TagLike::remove` and `id3::TagLike::set_title`, as `Tag`
/// implements them: every title frame is removed and one carrying the given
/// text is added, whatever the container held, leaving every other field as
/// it was.
#[verifier::external_body]
fn tag_set_title(tag: &mut id3::Tag, title: &str)
    ensures
        tag_fields(*final(tag)) == (TagFieldsV { title: Some(title@), ..tag_fields(*old(tag)) }),
{
    let _ = tag.remove("TIT2");
    tag.set_title(title);
}

/// Relies on `id3::TagLike::remove` and `id3::TagLike::set_artist`, as `Tag`
/// implements them: every artist frame is removed and one carrying the given
/// text is added.
#[verifier::external_body]
fn tag_set_artist(tag: &mut id3::Tag, artist: &str)
    ensures
        tag_fields(*final(tag)) == (TagFieldsV { artist: Some(artist@), ..tag_fields(*old(tag)) }),
{
    let _ = tag.remove("TPE1");
    tag.set_artist(artist);
}

/// Relies on `id3::TagLike::remove` and `id3::TagLike::set_album`, as `Tag`
/// implements them: every album frame is removed and one carrying the given
/// text is added.
#[verifier::external_body]
fn tag_set_album(tag: &mut id3::Tag, album: &str)
    ensures
        tag_fields(*final(tag)) == (TagFieldsV { album: Some(album@), ..tag_fields(*old(tag)) }),
{
    let _ = tag.remove("TALB");
    tag.set_album(album);
}

/// Relies on `id3::TagLike::remove` and `id3::TagLike::set_album_artist`, as
/// `Tag` implements them: every album-artist frame is removed and one
/// carrying the given text is added.
#[verifier::external_body]
fn tag_set_album_artist(tag: &mut id3::Tag, album_artist: &str)
    ensures
        tag_fields(*final(tag)) == (TagFieldsV {
            album_artist: Some(album_artist@),
            ..tag_fields(*old(tag))
        }),
{
    let _ = tag.remove("TPE2");
    tag.set_album_artist(album_artist);
}

/// Relies on `id3::TagLike::remove` and `id3::TagLike::set_track`, as `Tag`
/// implements them: every track frame is removed and one carrying the given
/// number is added, so any stored "track/total" pair gives way to the number
/// alone.
#[verifier::external_body]
fn tag_set_track(tag: &mut id3::Tag, track: u32)
    ensures
        tag_fields(*final(tag)) == (TagFieldsV {
            track_number: Some(track),
            ..tag_fields(*old(tag))
        }),
{
    let _ = tag.remove("TRCK");
    tag.set_track(track);
}

/// Relies on `id3::TagLike::remove` and `id3::TagLike::set_year`, as `Tag`
/// implements them: every year frame is removed and one carrying the given
/// year is added. The year is stored as zero-padded text whose leading zeros
/// the reader strips, so a year of zero reads back as no year at all.
#[verifier::external_body]
fn tag_set_year(tag: &mut id3::Tag, year: i32)
    ensures
        tag_fields(*final(tag)) == (TagFieldsV {
            year: if year == 0 {
                None
            } else {
                Some(year)
            },
            ..tag_fields(*old(tag))
        }),
{
    let _ = tag.remove("TYER");
    tag.set_year(year);
}

/// Relies on `id3::TagLike::remove` and `id3::TagLike::set_genre`, as `Tag`
/// implements them: every genre frame is removed and one carrying the given
/// text verbatim is added, so the genre field reads back as its decoding.
#[verifier::external_body]
fn tag_set_genre(tag: &mut id3::Tag, genre: &str)
    ensures
        tag_fields(*final(tag)) == (TagFieldsV {
            genre: Some(id3_genre_decode(genre@)),
            ..tag_fields(*old(tag))
        }),
{
    let _ = tag.remove("TCON");
    tag.set_genre(genre);
}

/// Relies on `id3::TagLike::remove_all_pictures`, as `Tag` implements it:
/// every picture frame is removed, nothing else changes.
#[verifier::external_body]
fn tag_remove_all_pictures(tag: &mut id3::Tag)
    ensures
        tag_fields(*final(tag)) == (TagFieldsV {
            pictures: Seq::empty(),
            ..tag_fields(*old(tag))
        }),
{
    tag.remove_all_pictures();
}

/// Relies on `id3::TagLike::add_frame`, as `Tag` implements it: appends one
/// front-cover picture frame with the given MIME type and bytes to a
/// container that has no pictures, leaving every other field as it was.
#[verifier::external_body]
fn tag_add_picture(tag: &mut id3::Tag, mime: &str, data: &Vec<u8>)
    requires
        tag_fields(*old(tag)).pictures.len() == 0,
    ensures
        tag_fields(*final(tag)) == (TagFieldsV {
            pictures: seq![(mime@, data@)],
            ..tag_fields(*old(tag))
        }),
{
    let _ = tag.add_frame(id3::frame::Picture {
        mime_type: mime.to_string(),
        picture_type: id3::frame::PictureType::CoverFront,
        description: String::new(),
        data: data.clone(),
    });
}

/// Relies on `id3::Tag::write_to_file`: encodes the container as ID3v2.4
/// into the given MP3 file image, preserving the audio data; the produced
/// image is a function of the container and the prior image alone.
#[verifier::external_body]
fn tag_write(tag: &id3::Tag, file_image: &[u8]) -> (r: Result<Vec<u8>, TagError>)
    ensures
        match r {
            Ok(img) => id3_write_of(*tag, file_image@) == Some(img@),
            Err(_) => id3_write_of(*tag, file_image@) is None,
        },
{
    let mut cursor = std::io::Cursor::new(file_image.to_vec());
    match tag.write_to_file(&mut cursor, id3::Version::Id3v24) {
        Ok(()) => Ok(cursor.into_inner()),
        Err(e) => Err(TagError { message: e.description }),
    }
}

/// The field is absent or holds the empty string.
pub open spec fn text_blank(field: Option<Seq<char>>) -> bool {
    match field {
        None => true,
        Some(s) => s.len() == 0,
    }
}

/// Title, artist and album are all absent or empty: the container carries no
/// usable tags.
pub open spec fn fields_all_blank(f: TagFieldsV) -> bool {
    text_blank(f.title) && text_blank(f.artist) && text_blank(f.album)
}

/// The record that a container's fields yield: the fields as read, the first
/// picture's bytes as the album art, provenance "id3", no remote reference.
pub open spec fn spec_info_of_fields(f: TagFieldsV) -> TrackInfoV {
    TrackInfoV {
        title: f.title,
        artist: f.artist,
        album: f.album,
        album_artist: f.album_artist,
        track_number: f.track_number,
        year: f.year,
        genre: f.genre,
        album_art: if f.pictures.len() > 0 {
            Some(f.pictures[0].1)
        } else {
            None
        },
        album_art_url: None,
        source: "id3"@,
    }
}

/// What a scan records for a byte image: the container's record when one is
/// there with a usable field, nothing when the image has no container, a
/// malformed one, or only blank fields.
pub open spec fn spec_scan_record(o: Id3OutcomeV) -> Option<TrackInfoV> {
    match o {
        Id3OutcomeV::Fields { fields } => if fields_all_blank(fields) {
            None
        } else {
            Some(spec_info_of_fields(fields))
        },
        _ => None,
    }
}

/// The fields read from an embedded container, as plain values.
pub struct RawTag {
    pub title: Option<String>,
    pub artist: Option<String>,
    pub album: Option<String>,
    pub album_artist: Option<String>,
    pub track_number: Option<u32>,
    pub year: Option<i32>,
    pub genre: Option<String>,
    pub picture: Option<Vec<u8>>,
}

fn text_present(field: &Option<String>) -> (r: bool)
    ensures
        r == !text_blank(field.deep_view()),
{
    match field {
        Some(s) => !s.as_str().is_empty(),
        None => false,
    }
}

/// The record that a set of raw container fields yields: absent when title,
/// artist and album are all missing or empty, else the fields as read, with
/// provenance "id3" and no remote art reference.
pub fn raw_to_info(raw: RawTag) -> (r: Option<TrackInfo>)
    ensures
        (text_blank(raw.title.deep_view()) && text_blank(raw.artist.deep_view()) && text_blank(
            raw.album.deep_view(),
        )) <==> r is None,
        r is Some ==> r.unwrap()@ == (TrackInfoV {
            title: raw.title.deep_view(),
            artist: raw.artist.deep_view(),
            album: raw.album.deep_view(),
            album_artist: raw.album_artist.deep_view(),
            track_number: raw.track_number,
            year: raw.year,
            genre: raw.genre.deep_view(),
            album_art: raw.picture.deep_view(),
            album_art_url: None,
            source: "id3"@,
        }),
{
    let has_any = text_present(&raw.title) || text_present(&raw.artist) || text_present(&raw.album);
    if !has_any {
        return None;
    }
    Some(
        TrackInfo {
            title: raw.title,
            artist: raw.artist,
            album: raw.album,
            album_artist: raw.album_artist,
            track_number: raw.track_number,
            year: raw.year,
            genre: raw.genre,
            album_art: raw.picture,
            album_art_url: None,
            source: "id3".to_owned(),
        },
    )
}

/// Reads the embedded metadata of an MP3 file image: the container's record
/// when it carries a usable field, `Ok(None)` when the image has no
/// container or only blank title, artist and album, and an error exactly
/// when the container is malformed.
pub fn read_tags(data: &[u8]) -> (r: Result<Option<TrackInfo>, TagError>)
    ensures
        match r {
            Ok(Some(info)) => spec_scan_record(id3_outcome(data@)) == Some(info@),
            Ok(None) => spec_scan_record(id3_outcome(data@)) is None && !(id3_outcome(
                data@,
            ) is Malformed),
            Err(_) => id3_outcome(data@) is Malformed,
        },
{
    let tag = match tag_parse(data) {
        Ok(Some(tag)) => tag,
        Ok(None) => {
            return Ok(None);
        },
        Err(e) => {
            return Err(e);
        },
    };
    let raw = RawTag {
        title: tag_title(&tag),
        artist: tag_artist(&tag),
        album: tag_album(&tag),
        album_artist: tag_album_artist(&tag),
        track_number: tag_track(&tag),
        year: tag_year(&tag),
        genre: tag_genre(&tag),
        picture: tag_first_picture(&tag),
    };
    Ok(raw_to_info(raw))
}

/// The MIME type derived from the leading bytes of image data: the PNG
/// magic number yields "image/png", anything else "image/jpeg".
pub open spec fn spec_detect_mime(data: Seq<u8>) -> Seq<char> {
    if data.len() >= 4 && data[0] == 0x89 && data[1] == 0x50 && data[2] == 0x4E && data[3] == 0x47 {
        "image/png"@
    } else {
        "image/jpeg"@
    }
}

/// Determines the MIME type of image bytes from their magic number.
pub fn detect_mime_type(data: &[u8]) -> (r: String)
    ensures
        r@ == spec_detect_mime(data@),
{
    if data.len() >= 4 && data[0] == 0x89 && data[1] == 0x50 && data[2] == 0x4E && data[3] == 0x47 {
        "image/png".to_owned()
    } else {
        "image/jpeg".to_owned()
    }
}

/// The container fields a write starts from: the image's own container, or
/// an empty one when the image has none or a malformed one.
pub open spec fn spec_write_base(o: Id3OutcomeV) -> TagFieldsV {
    match o {
        Id3OutcomeV::Fields { fields } => fields,
        _ => empty_tag_fields(),
    }
}

/// The container fields after a record is written over a base container:
/// each present field of the record overwrites the container's, absent
/// fields are left untouched, and present album-art bytes replace all
/// pictures with one frame whose MIME type follows the art's magic bytes.
/// The year and genre follow the container's storage: a year of zero reads
/// back as absent, a genre as its decoding.
pub open spec fn spec_write_fields(base: TagFieldsV, info: TrackInfoV) -> TagFieldsV {
    TagFieldsV {
        title: if info.title is Some {
            info.title
        } else {
            base.title
        },
        artist: if info.artist is Some {
            info.artist
        } else {
            base.artist
        },
        album: if info.album is Some {
            info.album
        } else {
            base.album
        },
        album_artist: if info.album_artist is Some {
            info.album_artist
        } else {
            base.album_artist
        },
        track_number: if info.track_number is Some {
            info.track_number
        } else {
            base.track_number
        },
        year: match info.year {
            Some(y) => if y == 0 {
                None
            } else {
                Some(y)
            },
            None => base.year,
        },
        genre: match info.genre {
            Some(g) => Some(id3_genre_decode(g)),
            None => base.genre,
        },
        pictures: match info.album_art {
            Some(d) => seq![(spec_detect_mime(d), d)],
            None => base.pictures,
        },
    }
}

/// Writes a record into an MP3 file image as an ID3v2.4 container: the
/// image's container (a fresh one when none parses) with each present field
/// of `info` written over it — exactly `spec_write_fields` — is handed to
/// the encoder, and the call fails exactly when the encoder does.
pub fn write_tags(data: &[u8], info: &TrackInfo) -> (r: Result<Vec<u8>, TagError>)
    ensures
        ({
            let written = spec_write_fields(spec_write_base(id3_outcome(data@)), info@);
            match r {
                Ok(img) => exists|t: id3::Tag|
                    #![trigger tag_fields(t)]
                    tag_fields(t) == written && id3_write_of(t, data@) == Some(img@),
                Err(_) => exists|t: id3::Tag|
                    #![trigger tag_fields(t)]
                    tag_fields(t) == written && id3_write_of(t, data@) is None,
            }
        }),
{
    let mut tag = match tag_parse(data) {
        Ok(Some(tag)) => tag,
        _ => tag_new(),
    };
    proof {
        assert(tag_fields(tag) == spec_write_base(id3_outcome(data@)));
    }
    if let Some(title) = &info.title {
        tag_set_title(&mut tag, title.as_str());
    }
    if let Some(artist) = &info.artist {
        tag_set_artist(&mut tag, artist.as_str());
    }
    if let Some(album) = &info.album {
        tag_set_album(&mut tag, album.as_str());
    }
    if let Some(album_artist) = &info.album_artist {
        tag_set_album_artist(&mut tag, album_artist.as_str());
    }
    if let Some(track) = info.track_number {
        tag_set_track(&mut tag, track);
    }
    if let Some(year) = info.year {
        tag_set_year(&mut tag, year);
    }
    if let Some(genre) = &info.genre {
        tag_set_genre(&mut tag, genre.as_str());
    }
    if let Some(art_data) = &info.album_art {
        proof {
            assert(art_data.deep_view() =~= art_data@);
        }
        let mime = detect_mime_type(art_data.as_slice());
        tag_remove_all_pictures(&mut tag);
        tag_add_picture(&mut tag, mime.as_str(), art_data);
    }
    proof {
        assert(tag_fields(tag) == spec_write_fields(
            spec_write_base(id3_outcome(data@)),
            info@,
        ));
    }
    let res = tag_write(&tag, data);
    proof {
        let written = spec_write_fields(spec_write_base(id3_outcome(data@)), info@);
        match &res {
            Ok(img) => {
                assert(tag_fields(tag) == written && id3_write_of(tag, data@) == Some(img@));
            },
            Err(_) => {
                assert(tag_fields(tag) == written && id3_write_of(tag, data@) is None);
            },
        }
    }
    res
}

/// The merge of an incoming record into an existing one: the incoming value
/// wins for every field it carries, the existing value is kept otherwise,
/// and the provenance is always the incoming one. With no existing record
/// the incoming record stands unchanged.
pub open spec fn spec_merge(existing: Option<TrackInfoV>, incoming: TrackInfoV) -> TrackInfoV {
    match existing {
        Some(e) => TrackInfoV {
            title: if incoming.title is Some {
                incoming.title
            } else {
                e.title
            },
            artist: if incoming.artist is Some {
                incoming.artist
            } else {
                e.artist
            },
            album: if incoming.album is Some {
                incoming.album
            } else {
                e.album
            },
            album_artist: if incoming.album_artist is Some {
                incoming.album_artist
            } else {
                e.album_artist
            },
            track_number: if incoming.track_number is Some {
                incoming.track_number
            } else {
                e.track_number
            },
            year: if incoming.year is Some {
                incoming.year
            } else {
                e.year
            },
            genre: if incoming.genre is Some {
                incoming.genre
            } else {
                e.genre
            },
            album_art: if incoming.album_art is Some {
                incoming.album_art
            } else {
                e.album_art
            },
            album_art_url: if incoming.album_art_url is Some {
                incoming.album_art_url
            } else {
                e.album_art_url
            },
            source: incoming.source,
        },
        None => incoming,
    }
}

/// Merges an incoming record into an existing one, field by field: the
/// incoming value wins when present, the existing one is kept otherwise, and
/// the provenance is taken from the incoming record. With no existing record
/// the incoming record is returned unchanged.
pub fn merge_tags(existing: &Option<TrackInfo>, new_info: &TrackInfo) -> (r: TrackInfo)
    ensures
        r@ == spec_merge(
            match existing {
                Some(e) => Some(e@),
                None => None,
            },
            new_info@,
        ),
        existing is None ==> r@ == new_info@,
{
    match existing {
        Some(e) => TrackInfo {
            title: if new_info.title.is_some() {
                clone_opt_string(&new_info.title)
            } else {
                clone_opt_string(&e.title)
            },
            artist: if new_info.artist.is_some() {
                clone_opt_string(&new_info.artist)
            } else {
                clone_opt_string(&e.artist)
            },
            album: if new_info.album.is_some() {
                clone_opt_string(&new_info.album)
            } else {
                clone_opt_string(&e.album)
            },
            album_artist: if new_info.album_artist.is_some() {
                clone_opt_string(&new_info.album_artist)
            } else {
                clone_opt_string(&e.album_artist)
            },
            track_number: if new_info.track_number.is_some() {
                new_info.track_number
            } else {
                e.track_number
            },
            year: if new_info.year.is_some() {
                new_info.year
            } else {
                e.year
            },
            genre: if new_info.genre.is_some() {
                clone_opt_string(&new_info.genre)
            } else {
                clone_opt_string(&e.genre)
            },
            album_art: if new_info.album_art.is_some() {
                clone_opt_bytes(&new_info.album_art)
            } else {
                clone_opt_bytes(&e.album_art)
            },
            album_art_url: if new_info.album_art_url.is_some() {
                clone_opt_string(&new_info.album_art_url)
            } else {
                clone_opt_string(&e.album_art_url)
            },
            source: new_info.source.clone(),
        },
        None => TrackInfo {
            title: clone_opt_string(&new_info.title),
            artist: clone_opt_string(&new_info.artist),
            album: clone_opt_string(&new_info.album),
            album_artist: clone_opt_string(&new_info.album_artist),
            track_number: new_info.track_number,
            year: new_info.year,
            genre: clone_opt_string(&new_info.genre),
            album_art: clone_opt_bytes(&new_info.album_art),
            album_art_url: clone_opt_string(&new_info.album_art_url),
            source: new_info.source.clone(),
        },
    }
}

} // verus!
