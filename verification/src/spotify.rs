//! The authenticated-catalog conversion logic: how a catalog track response
//! becomes a metadata record, how a release year is read from a release
//! date, and how the credential pair becomes an authorization header value.
//! The token exchange and search requests themselves are network work that
//! the surrounding program performs, handing the decoded responses here.

use vstd::prelude::*;

use base64::Engine;

use crate::models::{TrackInfo, TrackInfoV};
use crate::strutil::{find_char, first_char_idx, lemma_first_char_idx, parse_i32, spec_parse_i32};

verus! {

/// One artist in a catalog track response.
pub struct SpotifyArtist {
    pub name: String,
}

/// One offered album-art image.
pub struct SpotifyImage {
    pub url: String,
    pub width: Option<u32>,
}

/// The album part of a catalog track response.
pub struct SpotifyAlbum {
    pub name: String,
    pub release_date: Option<String>,
    pub images: Vec<SpotifyImage>,
}

/// One track of a catalog search response.
pub struct SpotifyTrack {
    pub name: String,
    pub artists: Vec<SpotifyArtist>,
    pub album: SpotifyAlbum,
    pub track_number: u32,
}

/// The release year of a release-date string: its leading `-`-delimited
/// component, read as a decimal integer.
pub open spec fn spec_release_year(rd: Option<Seq<char>>) -> Option<i32> {
    match rd {
        Some(d) => {
            let i = first_char_idx(d, '-');
            let lead = if i < 0 {
                d
            } else {
                d.subrange(0, i)
            };
            spec_parse_i32(lead)
        },
        None => None,
    }
}

/// Extracts the release year from a release-date string such as
/// "2019-11-18": the leading `-`-delimited component, parsed as an integer.
pub fn parse_year(release_date: &Option<String>) -> (r: Option<i32>)
    ensures
        r == spec_release_year(release_date.deep_view()),
{
    match release_date {
        Some(d) => {
            let lead = match find_char(d.as_str(), '-') {
                Some(i) => {
                    proof {
                        lemma_first_char_idx(d@, '-');
                    }
                    d.as_str().substring_char(0, i)
                },
                None => {
                    proof {
                        assert(d@.subrange(0, d@.len() as int) =~= d@);
                    }
                    d.as_str()
                },
            };
            parse_i32(lead)
        },
        None => None,
    }
}

/// The names of a track's artists, in order.
pub open spec fn artist_names(arts: Seq<SpotifyArtist>) -> Seq<Seq<char>> {
    arts.map_values(|a: SpotifyArtist| a.name@)
}

/// The names joined with ", ".
pub open spec fn spec_join_names(names: Seq<Seq<char>>) -> Seq<char>
    decreases names.len(),
{
    if names.len() == 0 {
        Seq::empty()
    } else if names.len() == 1 {
        names[0]
    } else {
        names[0] + ", "@ + spec_join_names(names.drop_first())
    }
}

proof fn lemma_join_names_push(names: Seq<Seq<char>>, x: Seq<char>)
    requires
        names.len() > 0,
    ensures
        spec_join_names(names.push(x)) == spec_join_names(names) + ", "@ + x,
    decreases names.len(),
{
    if names.len() == 1 {
        let p = names.push(x);
        assert(p.drop_first() =~= seq![x]);
        assert(spec_join_names(seq![x]) == x);
        assert(p[0] == names[0]);
    } else {
        lemma_join_names_push(names.drop_first(), x);
        assert(names.push(x).drop_first() =~= names.drop_first().push(x));
        assert(names.push(x)[0] == names[0]);
        assert(spec_join_names(names.push(x)) == names[0] + ", "@ + (spec_join_names(
            names.drop_first(),
        ) + ", "@ + x));
        assert(names[0] + ", "@ + (spec_join_names(names.drop_first()) + ", "@ + x) =~= (names[0]
            + ", "@ + spec_join_names(names.drop_first())) + ", "@ + x);
    }
}

fn join_artist_names(arts: &Vec<SpotifyArtist>) -> (r: String)
    ensures
        r@ == spec_join_names(artist_names(arts@)),
{
    let ghost names = artist_names(arts@);
    let n: usize = arts.len();
    let mut out = String::new();
    let mut i: usize = 0;
    while i < n
        invariant
            0 <= i <= n,
            n == arts@.len(),
            names == artist_names(arts@),
            names.len() == n,
            out@ == spec_join_names(names.subrange(0, i as int)),
        decreases n - i,
    {
        if i > 0 {
            out.append(", ");
        }
        out.append(arts[i].name.as_str());
        proof {
            assert(names[i as int] == arts@[i as int].name@);
            assert(names.subrange(0, i + 1) =~= names.subrange(0, i as int).push(
                names[i as int],
            ));
            if i > 0 {
                lemma_join_names_push(names.subrange(0, i as int), names[i as int]);
            } else {
                assert(spec_join_names(names.subrange(0, 1)) == names.subrange(0, 1)[0]);
            }
        }
        i = i + 1;
    }
    proof {
        assert(names.subrange(0, n as int) =~= names);
    }
    out
}

/// The width a catalog image offers, zero when unstated.
pub open spec fn img_width(i: SpotifyImage) -> u32 {
    match i.width {
        Some(w) => w,
        None => 0,
    }
}

/// The index of the highest-resolution image: the last one of maximal width,
/// as picking the maximum keeps the latest of equals. Negative only when
/// there is no image.
pub open spec fn best_image_idx(imgs: Seq<SpotifyImage>) -> int
    decreases imgs.len(),
{
    if imgs.len() == 0 {
        -1
    } else if imgs.len() == 1 {
        0
    } else {
        let r = best_image_idx(imgs.drop_last());
        if img_width(imgs.last()) >= img_width(imgs[r]) {
            imgs.len() - 1
        } else {
            r
        }
    }
}

pub proof fn lemma_best_image_idx_bounds(imgs: Seq<SpotifyImage>)
    requires
        imgs.len() > 0,
    ensures
        0 <= best_image_idx(imgs) < imgs.len(),
    decreases imgs.len(),
{
    if imgs.len() > 1 {
        lemma_best_image_idx_bounds(imgs.drop_last());
    }
}

fn best_image(imgs: &Vec<SpotifyImage>) -> (r: Option<usize>)
    ensures
        match r {
            Some(i) => best_image_idx(imgs@) == i as int,
            None => imgs@.len() == 0,
        },
{
    let n: usize = imgs.len();
    if n == 0 {
        return None;
    }
    let mut best: usize = 0;
    let mut i: usize = 1;
    while i < n
        invariant
            1 <= i <= n,
            n == imgs@.len(),
            best < i,
            best as int == best_image_idx(imgs@.subrange(0, i as int)),
        decreases n - i,
    {
        proof {
            let q = imgs@.subrange(0, i + 1);
            assert(q.drop_last() =~= imgs@.subrange(0, i as int));
            assert(q.last() == imgs@[i as int]);
            lemma_best_image_idx_bounds(imgs@.subrange(0, i as int));
        }
        let wi = match imgs[i].width {
            Some(w) => w,
            None => 0,
        };
        let wb = match imgs[best].width {
            Some(w) => w,
            None => 0,
        };
        if wi >= wb {
            best = i;
        }
        i = i + 1;
    }
    proof {
        assert(imgs@.subrange(0, n as int) =~= imgs@);
    }
    Some(best)
}

/// The record that a catalog track yields: all artists joined with ", ", the
/// first artist as album artist, the release year from the release date, and
/// the widest offered image as the art reference; provenance "spotify".
pub open spec fn spec_convert_track(t: SpotifyTrack) -> TrackInfoV {
    TrackInfoV {
        title: Some(t.name@),
        artist: Some(spec_join_names(artist_names(t.artists@))),
        album: Some(t.album.name@),
        album_artist: if t.artists@.len() > 0 {
            Some(t.artists@[0].name@)
        } else {
            None
        },
        track_number: Some(t.track_number),
        year: spec_release_year(t.album.release_date.deep_view()),
        genre: None,
        album_art: None,
        album_art_url: if t.album.images@.len() > 0 {
            Some(t.album.images@[best_image_idx(t.album.images@)].url@)
        } else {
            None
        },
        source: "spotify"@,
    }
}

/// Converts one catalog track response into a metadata record.
pub fn convert_track(track: &SpotifyTrack) -> (r: TrackInfo)
    ensures
        r@ == spec_convert_track(*track),
{
    let artist = join_artist_names(&track.artists);
    let album_artist: Option<String> = if track.artists.len() > 0 {
        Some(track.artists[0].name.clone())
    } else {
        None
    };
    let album_art_url: Option<String> = match best_image(&track.album.images) {
        Some(i) => {
            proof {
                lemma_best_image_idx_bounds(track.album.images@);
            }
            Some(track.album.images[i].url.clone())
        },
        None => None,
    };
    TrackInfo {
        title: Some(track.name.clone()),
        artist: Some(artist),
        album: Some(track.album.name.clone()),
        album_artist,
        track_number: Some(track.track_number),
        year: parse_year(&track.album.release_date),
        genre: None,
        album_art: None,
        album_art_url,
        source: "spotify".to_owned(),
    }
}

/// Converts a whole search response, in order.
pub fn convert_tracks(items: &Vec<SpotifyTrack>) -> (r: Vec<TrackInfo>)
    ensures
        r@.len() == items@.len(),
        forall|i: int| 0 <= i < items@.len() ==> #[trigger] r@[i]@ == spec_convert_track(
            items@[i],
        ),
{
    let mut out: Vec<TrackInfo> = Vec::new();
    let mut i: usize = 0;
    while i < items.len()
        invariant
            0 <= i <= items@.len(),
            out@.len() == i,
            forall|k: int| 0 <= k < i ==> #[trigger] out@[k]@ == spec_convert_track(items@[k]),
        decreases items@.len() - i,
    {
        let t = convert_track(&items[i]);
        out.push(t);
        i = i + 1;
    }
    out
}

/// A name for what base64's STANDARD engine returns on given bytes.
pub uninterp spec fn base64_std(data: Seq<u8>) -> Seq<char>;

/// Relies on base64's STANDARD engine: the padded standard-alphabet encoding
/// of the bytes, four output characters for every three input bytes begun.
#[verifier::external_body]
fn base64_encode(data: &Vec<u8>) -> (r: String)
    ensures
        r@ == base64_std(data@),
        r@.len() == 4 * ((data@.len() + 2) / 3),
{
    base64::engine::general_purpose::STANDARD.encode(data)
}

/// The Basic authorization header value for a credential pair: "Basic "
/// followed by the standard base64 encoding of "id:secret" in UTF-8, as the
/// credential-flow token exchange sends it.
pub fn basic_auth_value(client_id: &str, client_secret: &str) -> (r: String)
    ensures
        r@ == "Basic "@ + base64_std(
            vstd::utf8::encode_utf8(client_id@ + ":"@ + client_secret@),
        ),
{
    let mut creds = client_id.to_owned();
    creds.append(":");
    creds.append(client_secret);
    let bytes = creds.as_str().as_bytes_vec();
    let encoded = base64_encode(&bytes);
    let mut out = "Basic ".to_owned();
    out.append(encoded.as_str());
    out
}

} // verus!
