//! The scraped-catalog parsing logic: the search URL with its query
//! encoding, the per-row extraction rules of the search page, the
//! label/value metadata table of a detail page, and the recovery of the
//! original-resolution art URL. The DOM itself is read through scraper;
//! every decision over what it yields is verified here. Fetching the pages
//! is network work that the surrounding program performs.

use vstd::prelude::*;
use vstd::string::StringSliceAdditionalSpecFns;

use crate::models::{clone_track_info, TrackInfo, TrackInfoV};
use crate::sources::SourceError;
use crate::strutil::{
    contains_str, find_char, find_str, first_char_idx, first_match_idx, lemma_first_char_idx,
    lemma_first_match_idx, matches_at, parse_i32, push_char, spec_parse_i32, spec_trim, str_eq,
    trim,
};

verus! {

#[verifier::external_type_specification]
#[verifier::external_body]
pub struct ExHtml(scraper::Html);

#[verifier::external_type_specification]
#[verifier::external_body]
pub struct ExSelector(scraper::Selector);

#[verifier::external_type_specification]
#[verifier::external_body]
pub struct ExElementRef<'a>(scraper::ElementRef<'a>);

/// Relies on `scraper::Html::parse_document`: parses HTML text into a
/// document tree.
#[verifier::external_body]
fn parse_document(html: &str) -> scraper::Html {
    scraper::Html::parse_document(html)
}

/// A name for whether a selector text compiles under `scraper::Selector::parse`:
/// that depends on the text alone.
pub uninterp spec fn selector_compiles(s: Seq<char>) -> bool;

/// Relies on `scraper::Selector::parse`: compiles a CSS selector; whether it
/// succeeds depends on the selector text alone.
#[verifier::external_body]
fn parse_selector(selector: &str) -> (r: Option<scraper::Selector>)
    ensures
        r is Some <==> selector_compiles(selector@),
{
    scraper::Selector::parse(selector).ok()
}

/// Relies on `scraper::Html::select`: the elements the selector matches, in
/// document order.
#[verifier::external_body]
fn doc_select<'a>(doc: &'a scraper::Html, sel: &scraper::Selector) -> Vec<scraper::ElementRef<'a>> {
    doc.select(sel).collect()
}

/// Relies on `scraper::ElementRef::select`: the matching descendants, in
/// document order.
#[verifier::external_body]
fn el_select<'a>(el: &scraper::ElementRef<'a>, sel: &scraper::Selector) -> Vec<
    scraper::ElementRef<'a>,
> {
    el.select(sel).collect()
}

/// Relies on `scraper::ElementRef::attr`: the element's attribute value.
#[verifier::external_body]
fn el_attr(el: &scraper::ElementRef<'_>, name: &str) -> Option<String> {
    el.attr(name).map(|v| v.to_string())
}

/// Relies on `scraper::ElementRef::text`: the element's text, concatenated.
#[verifier::external_body]
fn el_text(el: &scraper::ElementRef<'_>) -> String {
    el.text().collect::<String>()
}

/// A byte a query string carries unescaped.
pub open spec fn url_safe_byte(b: u8) -> bool {
    (0x41 <= b && b <= 0x5A) || (0x61 <= b && b <= 0x7A) || (0x30 <= b && b <= 0x39) || b == 0x2D
        || b == 0x5F || b == 0x2E || b == 0x7E
}

/// The uppercase hexadecimal digit for a value below sixteen.
pub open spec fn hex_char(v: u8) -> char {
    if v < 10 {
        (0x30 + v) as char
    } else {
        (0x37 + v) as char
    }
}

/// How one byte is query-encoded: unescaped when safe, `+` for a space, and
/// `%` with two uppercase hexadecimal digits otherwise.
pub open spec fn enc_byte(b: u8) -> Seq<char> {
    if url_safe_byte(b) {
        seq![b as char]
    } else if b == 0x20 {
        seq!['+']
    } else {
        seq!['%', hex_char(b / 16), hex_char(b % 16)]
    }
}

/// The query encoding of a byte string.
pub open spec fn spec_urlencode(bytes: Seq<u8>) -> Seq<char>
    decreases bytes.len(),
{
    if bytes.len() == 0 {
        Seq::empty()
    } else {
        enc_byte(bytes[0]) + spec_urlencode(bytes.drop_first())
    }
}

proof fn lemma_urlencode_push(bytes: Seq<u8>, b: u8)
    ensures
        spec_urlencode(bytes.push(b)) == spec_urlencode(bytes) + enc_byte(b),
    decreases bytes.len(),
{
    if bytes.len() == 0 {
        let p = bytes.push(b);
        assert(p[0] == b);
        assert(p.drop_first() =~= Seq::<u8>::empty());
        assert(spec_urlencode(p.drop_first()) =~= Seq::<char>::empty());
        assert(spec_urlencode(p) == enc_byte(p[0]) + spec_urlencode(p.drop_first()));
        assert(enc_byte(b) + Seq::<char>::empty() =~= enc_byte(b));
        assert(spec_urlencode(bytes) =~= Seq::<char>::empty());
        assert(spec_urlencode(bytes) + enc_byte(b) =~= enc_byte(b));
    } else {
        lemma_urlencode_push(bytes.drop_first(), b);
        assert(bytes.push(b).drop_first() =~= bytes.drop_first().push(b));
        assert(bytes.push(b)[0] == bytes[0]);
        assert(enc_byte(bytes[0]) + (spec_urlencode(bytes.drop_first()) + enc_byte(b)) =~= (
        enc_byte(bytes[0]) + spec_urlencode(bytes.drop_first())) + enc_byte(b));
    }
}

/// Encodes a query string for a URL: the UTF-8 bytes of `s`, with safe bytes
/// kept, spaces as `+`, and every other byte as `%` and two uppercase
/// hexadecimal digits.
pub fn urlencoding(s: &str) -> (r: String)
    ensures
        r@ == spec_urlencode(s.spec_bytes()),
{
    let bytes = s.as_bytes_vec();
    let n: usize = bytes.len();
    let mut out = String::new();
    let mut i: usize = 0;
    while i < n
        invariant
            0 <= i <= n,
            n == bytes@.len(),
            bytes@ == s.spec_bytes(),
            out@ == spec_urlencode(bytes@.subrange(0, i as int)),
        decreases n - i,
    {
        let b = bytes[i];
        if (0x41 <= b && b <= 0x5A) || (0x61 <= b && b <= 0x7A) || (0x30 <= b && b <= 0x39) || b
            == 0x2D || b == 0x5F || b == 0x2E || b == 0x7E {
            push_char(&mut out, b as char);
            proof {
                assert(seq![b as char] =~= Seq::empty().push(b as char));
            }
        } else if b == 0x20 {
            push_char(&mut out, '+');
        } else {
            push_char(&mut out, '%');
            let hi: u8 = b / 16;
            let lo: u8 = b % 16;
            let hc: char = if hi < 10 {
                (0x30 + hi) as char
            } else {
                (0x37 + hi) as char
            };
            let lc: char = if lo < 10 {
                (0x30 + lo) as char
            } else {
                (0x37 + lo) as char
            };
            push_char(&mut out, hc);
            push_char(&mut out, lc);
        }
        proof {
            assert(bytes@.subrange(0, i + 1) =~= bytes@.subrange(0, i as int).push(
                bytes@[i as int],
            ));
            lemma_urlencode_push(bytes@.subrange(0, i as int), bytes@[i as int]);
            assert(out@ =~= spec_urlencode(bytes@.subrange(0, i + 1)));
        }
        i = i + 1;
    }
    proof {
        assert(bytes@.subrange(0, n as int) =~= bytes@);
    }
    out
}

/// The search-page URL for a query.
pub fn melon_search_url(query: &str) -> (r: String)
    ensures
        r@ == "https://www.melon.com/search/song/index.htm?q="@ + spec_urlencode(
            query.spec_bytes(),
        ) + "&section=&searchGnbYn=Y&kkoSpl=N&kkoDpType="@,
{
    let mut out = "https://www.melon.com/search/song/index.htm?q=".to_owned();
    let q = urlencoding(query);
    out.append(q.as_str());
    out.append("&section=&searchGnbYn=Y&kkoSpl=N&kkoDpType=");
    out
}

/// The detail-page URL for a song identifier.
pub fn detail_url_of(song_id: &str) -> (r: String)
    ensures
        r@ == "https://www.melon.com/song/detail.htm?songId="@ + song_id@,
{
    let mut out = "https://www.melon.com/song/detail.htm?songId=".to_owned();
    out.append(song_id);
    out
}

/// An image URL with any resized-thumbnail suffix removed: everything before
/// the first "/melon/resize/", or the whole URL when it has none.
pub open spec fn spec_strip_resize(u: Seq<char>) -> Seq<char> {
    let i = first_match_idx(u, "/melon/resize/"@);
    if i < 0 {
        u
    } else {
        u.subrange(0, i)
    }
}

/// Removes the resized-thumbnail path suffix from an image URL, recovering
/// the original-resolution image.
pub fn strip_resize_suffix(url: &str) -> (r: String)
    ensures
        r@ == spec_strip_resize(url@),
{
    let pat = "/melon/resize/";
    proof {
        reveal_strlit("/melon/resize/");
        lemma_first_match_idx(url@, pat@);
    }
    match find_str(url, pat) {
        Some(i) => {
            proof {
                let f = first_match_idx(url@, pat@);
                if f < 0 {
                    assert(!matches_at(url@, pat@, i as int));
                }
                if f > i as int {
                    assert(!matches_at(url@, pat@, i as int));
                }
                if 0 <= f < i as int {
                    assert(!matches_at(url@, pat@, f));
                }
            }
            url.substring_char(0, i).to_owned()
        },
        None => {
            proof {
                let f = first_match_idx(url@, pat@);
                if f >= 0 {
                    assert(!matches_at(url@, pat@, f));
                }
            }
            url.to_owned()
        },
    }
}

/// Text as the metadata table shows it: non-breaking spaces made plain, then
/// trimmed.
pub open spec fn spec_normalize(s: Seq<char>) -> Seq<char> {
    spec_trim(
        s.map_values(
            |c: char|
                if c as u32 == 0xA0 {
                    ' '
                } else {
                    c
                },
        ),
    )
}

/// Normalizes an element's text: non-breaking spaces become plain spaces and
/// the ends are trimmed.
pub fn normalize_text(s: &str) -> (r: String)
    ensures
        r@ == spec_normalize(s@),
{
    let n: usize = s.unicode_len();
    let mut mapped = String::new();
    let mut i: usize = 0;
    while i < n
        invariant
            0 <= i <= n,
            n == s@.len(),
            mapped@ =~= s@.subrange(0, i as int).map_values(
                |c: char|
                    if c as u32 == 0xA0 {
                        ' '
                    } else {
                        c
                    },
            ),
        decreases n - i,
    {
        let c = s.get_char(i);
        if c as u32 == 0xA0 {
            push_char(&mut mapped, ' ');
        } else {
            push_char(&mut mapped, c);
        }
        proof {
            assert(s@.subrange(0, i + 1) =~= s@.subrange(0, i as int).push(s@[i as int]));
            assert(mapped@ =~= s@.subrange(0, i + 1).map_values(
                |c: char|
                    if c as u32 == 0xA0 {
                        ' '
                    } else {
                        c
                    },
            ));
        }
        i = i + 1;
    }
    proof {
        assert(s@.subrange(0, n as int) =~= s@);
    }
    trim(mapped.as_str())
}

/// The record a search-result row yields, from its extracted plain values:
/// nothing when the title is empty; else the title, the artist and album
/// when non-empty, the detail-page URL as the art reference, and provenance
/// "melon".
pub open spec fn spec_melon_row_track(
    song_id: Seq<char>,
    title: Seq<char>,
    artist: Seq<char>,
    album: Seq<char>,
) -> Option<TrackInfoV> {
    if title.len() == 0 {
        None
    } else {
        Some(
            TrackInfoV {
                title: Some(title),
                artist: if artist.len() == 0 {
                    None
                } else {
                    Some(artist)
                },
                album: if album.len() == 0 {
                    None
                } else {
                    Some(album)
                },
                album_artist: None,
                track_number: None,
                year: None,
                genre: None,
                album_art: None,
                album_art_url: Some("https://www.melon.com/song/detail.htm?songId="@ + song_id),
                source: "melon"@,
            },
        )
    }
}

/// Builds the record for one search-result row from its extracted values:
/// the song identifier, the title attribute, and the trimmed artist and
/// album texts, empty where the row had none.
pub fn melon_row_to_track(song_id: &str, title: &str, artist: &str, album: &str) -> (r: Option<
    TrackInfo,
>)
    ensures
        match spec_melon_row_track(song_id@, title@, artist@, album@) {
            Some(tv) => r is Some && r.unwrap()@ == tv,
            None => r is None,
        },
{
    if title.unicode_len() == 0 {
        return None;
    }
    let artist_o: Option<String> = if artist.unicode_len() == 0 {
        None
    } else {
        Some(artist.to_owned())
    };
    let album_o: Option<String> = if album.unicode_len() == 0 {
        None
    } else {
        Some(album.to_owned())
    };
    Some(
        TrackInfo {
            title: Some(title.to_owned()),
            artist: artist_o,
            album: album_o,
            album_artist: None,
            track_number: None,
            year: None,
            genre: None,
            album_art: None,
            album_art_url: Some(detail_url_of(song_id)),
            source: "melon".to_owned(),
        },
    )
}

/// What holds of every record a search page yields.
pub open spec fn melon_result_ok(t: TrackInfoV) -> bool {
    &&& t.source == "melon"@
    &&& match t.title {
        Some(ti) => ti.len() > 0,
        None => false,
    }
    &&& t.album_art is None
    &&& t.album_art_url is Some
    &&& t.album_artist is None
    &&& t.track_number is None
    &&& t.year is None
    &&& t.genre is None
}

/// The five fixed selectors of the search page all compile.
pub open spec fn search_selectors_ok() -> bool {
    selector_compiles("tr"@) && selector_compiles("input.input_check"@) && selector_compiles(
        "a.fc_gray"@,
    ) && selector_compiles("div#artistName a.fc_mgray"@) && selector_compiles("a.fc_mgray"@)
}

/// Parses a search page: for each result row, the song identifier from its
/// checkbox, the title attribute (rows without one, or with an empty one,
/// are skipped), the artist text, and the album link's text; each kept row
/// becomes a record whose art reference is the song's detail-page URL. It
/// fails exactly when one of its fixed selectors does not compile.
pub fn melon_parse_search(html: &str) -> (r: Result<Vec<TrackInfo>, SourceError>)
    ensures
        r is Err <==> !search_selectors_ok(),
        match r {
            Ok(tracks) => forall|i: int|
                0 <= i < tracks@.len() ==> melon_result_ok(#[trigger] tracks@[i]@),
            Err(_) => true,
        },
{
    let doc = parse_document(html);
    let tr_sel = match parse_selector("tr") {
        Some(s) => s,
        None => {
            return Err(SourceError { message: "row selector did not compile".to_owned() });
        },
    };
    let input_sel = match parse_selector("input.input_check") {
        Some(s) => s,
        None => {
            return Err(SourceError { message: "id selector did not compile".to_owned() });
        },
    };
    let title_sel = match parse_selector("a.fc_gray") {
        Some(s) => s,
        None => {
            return Err(SourceError { message: "title selector did not compile".to_owned() });
        },
    };
    let artist_sel = match parse_selector("div#artistName a.fc_mgray") {
        Some(s) => s,
        None => {
            return Err(SourceError { message: "artist selector did not compile".to_owned() });
        },
    };
    let album_sel = match parse_selector("a.fc_mgray") {
        Some(s) => s,
        None => {
            return Err(SourceError { message: "album selector did not compile".to_owned() });
        },
    };
    let rows = doc_select(&doc, &tr_sel);
    let mut results: Vec<TrackInfo> = Vec::new();
    let mut i: usize = 0;
    while i < rows.len()
        invariant
            0 <= i <= rows.len(),
            forall|k: int| 0 <= k < results@.len() ==> melon_result_ok(#[trigger] results@[k]@),
        decreases rows.len() - i,
    {
        let row = &rows[i];
        i = i + 1;
        let inputs = el_select(row, &input_sel);
        if inputs.len() == 0 {
            continue ;
        }
        let song_id = match el_attr(&inputs[0], "value") {
            Some(v) => v,
            None => {
                continue ;
            },
        };
        let titles = el_select(row, &title_sel);
        if titles.len() == 0 {
            continue ;
        }
        let title = match el_attr(&titles[0], "title") {
            Some(t) => t,
            None => String::new(),
        };
        let artist_els = el_select(row, &artist_sel);
        let artist = if artist_els.len() > 0 {
            let text = el_text(&artist_els[0]);
            trim(text.as_str())
        } else {
            String::new()
        };
        let album_els = el_select(row, &album_sel);
        let mut album = String::new();
        let mut found_album: bool = false;
        let mut j: usize = 0;
        while !found_album && j < album_els.len()
            invariant
                0 <= j <= album_els.len(),
            decreases album_els.len() - j,
        {
            let is_album_link = match el_attr(&album_els[j], "href") {
                Some(href) => contains_str(href.as_str(), "album"),
                None => false,
            };
            if is_album_link {
                let text = el_text(&album_els[j]);
                album = trim(text.as_str());
                found_album = true;
            }
            j = j + 1;
        }
        match melon_row_to_track(song_id.as_str(), title.as_str(), artist.as_str(), album.as_str())
        {
            Some(t) => {
                results.push(t);
            },
            None => {},
        }
    }
    Ok(results)
}

/// One label/value pair applied to a record: a release-date label sets the
/// year from the leading `.`-delimited component of the value when it parses
/// as an integer; a genre or album label overwrites that field when the
/// value is non-empty; any other label changes nothing.
pub open spec fn spec_apply_label(t: TrackInfoV, label: Seq<char>, value: Seq<char>) -> TrackInfoV {
    if label == "발매일"@ {
        let i = first_char_idx(value, '.');
        let lead = if i < 0 {
            value
        } else {
            value.subrange(0, i)
        };
        match spec_parse_i32(lead) {
            Some(y) => TrackInfoV { year: Some(y), ..t },
            None => t,
        }
    } else if label == "장르"@ {
        if value.len() > 0 {
            TrackInfoV { genre: Some(value), ..t }
        } else {
            t
        }
    } else if label == "앨범"@ {
        if value.len() > 0 {
            TrackInfoV { album: Some(value), ..t }
        } else {
            t
        }
    } else {
        t
    }
}

/// The label/value pairs of a detail page applied in order.
pub open spec fn spec_apply_labels(t: TrackInfoV, pairs: Seq<(Seq<char>, Seq<char>)>) -> TrackInfoV
    decreases pairs.len(),
{
    if pairs.len() == 0 {
        t
    } else {
        spec_apply_labels(spec_apply_label(t, pairs[0].0, pairs[0].1), pairs.drop_first())
    }
}

proof fn lemma_apply_labels_push(
    t: TrackInfoV,
    pairs: Seq<(Seq<char>, Seq<char>)>,
    x: (Seq<char>, Seq<char>),
)
    ensures
        spec_apply_labels(t, pairs.push(x)) == spec_apply_label(
            spec_apply_labels(t, pairs),
            x.0,
            x.1,
        ),
    decreases pairs.len(),
{
    if pairs.len() == 0 {
        let p = pairs.push(x);
        assert(p[0] == x);
        assert(p.drop_first() =~= Seq::<(Seq<char>, Seq<char>)>::empty());
        assert(spec_apply_labels(t, p) == spec_apply_labels(spec_apply_label(t, x.0, x.1),
        p.drop_first()));
        assert(spec_apply_labels(spec_apply_label(t, x.0, x.1), p.drop_first())
            == spec_apply_label(t, x.0, x.1));
        assert(spec_apply_labels(t, pairs) == t);
    } else {
        let t1 = spec_apply_label(t, pairs[0].0, pairs[0].1);
        lemma_apply_labels_push(t1, pairs.drop_first(), x);
        let p = pairs.push(x);
        assert(p[0] == pairs[0]);
        assert(p.drop_first() =~= pairs.drop_first().push(x));
        assert(spec_apply_labels(t, p) == spec_apply_labels(spec_apply_label(t, p[0].0, p[0].1),
        p.drop_first()));
        assert(spec_apply_label(t, p[0].0, p[0].1) == t1);
        assert(spec_apply_labels(t, p) == spec_apply_labels(t1, pairs.drop_first().push(x)));
        assert(spec_apply_labels(t1, pairs.drop_first().push(x)) == spec_apply_label(
            spec_apply_labels(t1, pairs.drop_first()),
            x.0,
            x.1,
        ));
        assert(spec_apply_labels(t, pairs) == spec_apply_labels(t1, pairs.drop_first()));
    }
}

/// Applying a detail page's labels touches only the year, genre and album:
/// every other field of the record stands as it was.
pub proof fn lemma_apply_labels_preserves(t: TrackInfoV, pairs: Seq<(Seq<char>, Seq<char>)>)
    ensures
        spec_apply_labels(t, pairs).title == t.title,
        spec_apply_labels(t, pairs).artist == t.artist,
        spec_apply_labels(t, pairs).album_artist == t.album_artist,
        spec_apply_labels(t, pairs).track_number == t.track_number,
        spec_apply_labels(t, pairs).album_art == t.album_art,
        spec_apply_labels(t, pairs).album_art_url == t.album_art_url,
        spec_apply_labels(t, pairs).source == t.source,
    decreases pairs.len(),
{
    if pairs.len() > 0 {
        lemma_apply_labels_preserves(spec_apply_label(t, pairs[0].0, pairs[0].1),
            pairs.drop_first());
    }
}

/// The view of a list of label/value pairs.
pub open spec fn pairs_view(labels: Seq<(String, String)>) -> Seq<(Seq<char>, Seq<char>)> {
    labels.map_values(|p: (String, String)| (p.0@, p.1@))
}

/// Applies a detail page's label/value pairs to a record, in order: the
/// release-date label contributes the year, and non-empty genre and album
/// values overwrite those fields.
pub fn melon_apply_detail(track: &TrackInfo, labels: &Vec<(String, String)>) -> (r: TrackInfo)
    ensures
        r@ == spec_apply_labels(track@, pairs_view(labels@)),
{
    let ghost pairs = pairs_view(labels@);
    let mut cur = clone_track_info(track);
    let n: usize = labels.len();
    let mut i: usize = 0;
    while i < n
        invariant
            0 <= i <= n,
            n == labels@.len(),
            pairs == pairs_view(labels@),
            pairs.len() == n,
            cur@ == spec_apply_labels(track@, pairs.subrange(0, i as int)),
        decreases n - i,
    {
        let label = &labels[i].0;
        let value = &labels[i].1;
        proof {
            assert(pairs[i as int] == (labels@[i as int].0@, labels@[i as int].1@));
            assert(pairs.subrange(0, i + 1) =~= pairs.subrange(0, i as int).push(pairs[i as int]));
            lemma_apply_labels_push(track@, pairs.subrange(0, i as int), pairs[i as int]);
        }
        if str_eq(label.as_str(), "발매일") {
            let lead = match find_char(value.as_str(), '.') {
                Some(p) => {
                    proof {
                        lemma_first_char_idx(value@, '.');
                    }
                    value.as_str().substring_char(0, p)
                },
                None => {
                    proof {
                        assert(value@.subrange(0, value@.len() as int) =~= value@);
                    }
                    value.as_str()
                },
            };
            if let Some(y) = parse_i32(lead) {
                cur.year = Some(y);
            }
        } else if str_eq(label.as_str(), "장르") {
            if value.as_str().unicode_len() > 0 {
                cur.genre = Some(value.clone());
            }
        } else if str_eq(label.as_str(), "앨범") {
            if value.as_str().unicode_len() > 0 {
                cur.album = Some(value.clone());
            }
        }
        i = i + 1;
    }
    proof {
        assert(pairs.subrange(0, n as int) =~= pairs);
    }
    cur
}

/// The three fixed selectors of the detail page all compile.
pub open spec fn detail_selectors_ok() -> bool {
    selector_compiles("div.meta dl.list dt"@) && selector_compiles("div.meta dl.list dd"@)
        && selector_compiles("div#d_song_org img"@)
}

/// Parses a detail page for a record: reads the label/value metadata table
/// and applies it, and recovers the original-resolution art URL from the
/// page's image element, when one is there. Only the year, genre and album
/// can change; it fails exactly when one of its fixed selectors does not
/// compile. Downloading the art is the caller's work, and a record keeps no
/// art when that fetch fails.
pub fn melon_parse_detail(track: &TrackInfo, html: &str) -> (r: Result<
    (TrackInfo, Option<String>),
    SourceError,
>)
    ensures
        r is Err <==> !detail_selectors_ok(),
        match r {
            Ok((t, img)) => t@.title == track@.title && t@.artist == track@.artist
                && t@.album_artist == track@.album_artist && t@.track_number == track@.track_number
                && t@.album_art == track@.album_art && t@.album_art_url == track@.album_art_url
                && t@.source == track@.source,
            Err(_) => true,
        },
{
    let doc = parse_document(html);
    let dt_sel = match parse_selector("div.meta dl.list dt") {
        Some(s) => s,
        None => {
            return Err(SourceError { message: "label selector did not compile".to_owned() });
        },
    };
    let dd_sel = match parse_selector("div.meta dl.list dd") {
        Some(s) => s,
        None => {
            return Err(SourceError { message: "value selector did not compile".to_owned() });
        },
    };
    let img_sel = match parse_selector("div#d_song_org img") {
        Some(s) => s,
        None => {
            return Err(SourceError { message: "image selector did not compile".to_owned() });
        },
    };
    let dts = doc_select(&doc, &dt_sel);
    let dds = doc_select(&doc, &dd_sel);
    let count = if dts.len() < dds.len() {
        dts.len()
    } else {
        dds.len()
    };
    let mut labels: Vec<(String, String)> = Vec::new();
    let mut k: usize = 0;
    while k < count
        invariant
            count <= dts.len(),
            count <= dds.len(),
        decreases count - k,
    {
        let dt_text = el_text(&dts[k]);
        let dd_text = el_text(&dds[k]);
        labels.push((normalize_text(dt_text.as_str()), normalize_text(dd_text.as_str())));
        k = k + 1;
    }
    let detailed = melon_apply_detail(track, &labels);
    proof {
        lemma_apply_labels_preserves(track@, pairs_view(labels@));
    }
    let imgs = doc_select(&doc, &img_sel);
    let img_url: Option<String> = if imgs.len() > 0 {
        match el_attr(&imgs[0], "src") {
            Some(src) => Some(strip_resize_suffix(src.as_str())),
            None => None,
        }
    } else {
        None
    };
    Ok((detailed, img_url))
}

} // verus!
