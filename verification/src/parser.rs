//! The filename-parsing heuristic: recover artist and title hints from the
//! stem of a file name, trying a fixed sequence of naming conventions, and
//! build a catalog search query from a record.

use vstd::prelude::*;

use crate::models::{path_file_name, spec_path_file_name, TrackInfo, TrackInfoV};
use crate::strutil::{
    is_digit, is_digit_char, is_space, spec_trim, spec_trim_end, spec_trim_start, trim,
    trim_start_str,
};

verus! {

/// The separator `" - "` occurs in `s` at position `i`.
pub open spec fn sep_at(s: Seq<char>, i: int) -> bool {
    0 <= i && i + 3 <= s.len() && s[i] == ' ' && s[i + 1] == '-' && s[i + 2] == ' '
}

/// The position of the first `" - "` in `s`, or a negative value when there
/// is none.
pub open spec fn first_sep_idx(s: Seq<char>) -> int
    decreases s.len(),
{
    if s.len() < 3 {
        -1
    } else if s[0] == ' ' && s[1] == '-' && s[2] == ' ' {
        0
    } else {
        let r = first_sep_idx(s.drop_first());
        if r < 0 {
            -1
        } else {
            r + 1
        }
    }
}

/// `first_sep_idx` names the first separator position: it satisfies `sep_at`,
/// nothing before it does, and a negative result means no position does.
pub proof fn lemma_first_sep_idx(s: Seq<char>)
    ensures
        first_sep_idx(s) >= 0 ==> sep_at(s, first_sep_idx(s)) && (forall|j: int|
            0 <= j < first_sep_idx(s) ==> !sep_at(s, j)),
        first_sep_idx(s) < 0 ==> forall|j: int| !sep_at(s, j),
    decreases s.len(),
{
    if s.len() < 3 {
        assert(forall|j: int| !sep_at(s, j));
    } else if s[0] == ' ' && s[1] == '-' && s[2] == ' ' {
        assert(sep_at(s, 0));
    } else {
        let t = s.drop_first();
        lemma_first_sep_idx(t);
        assert forall|j: int| 1 <= j implies #[trigger] sep_at(s, j) == sep_at(t, j - 1) by {
            if 1 <= j && j + 3 <= s.len() {
                assert(t[j - 1] == s[j] && t[j] == s[j + 1] && t[j + 1] == s[j + 2]);
            }
        }
        assert(!sep_at(s, 0));
    }
}

/// The number of ASCII digits at the start of `s`.
pub open spec fn digit_prefix_len(s: Seq<char>) -> int
    decreases s.len(),
{
    if s.len() > 0 && is_digit(s[0]) {
        1 + digit_prefix_len(s.drop_first())
    } else {
        0
    }
}

pub proof fn lemma_digit_prefix_len(s: Seq<char>)
    ensures
        0 <= digit_prefix_len(s) <= s.len(),
        forall|k: int| 0 <= k < digit_prefix_len(s) ==> is_digit(s[k]),
        digit_prefix_len(s) < s.len() ==> !is_digit(s[digit_prefix_len(s)]),
    decreases s.len(),
{
    if s.len() > 0 && is_digit(s[0]) {
        let t = s.drop_first();
        lemma_digit_prefix_len(t);
        assert forall|k: int| 0 <= k < digit_prefix_len(s) implies is_digit(s[k]) by {
            if k >= 1 {
                assert(is_digit(t[k - 1]));
                assert(t[k - 1] == s[k]);
            }
        }
    }
}

/// The remainder of a stem after a leading track number: one or more digits,
/// an optional `.`, and any following white space. Absent when the stem is
/// shorter than two characters, has no leading digit, or nothing remains.
pub open spec fn spec_strip_track_number(s: Seq<char>) -> Option<Seq<char>> {
    if s.len() < 2 {
        None
    } else {
        let d = digit_prefix_len(s);
        if d == 0 {
            None
        } else {
            let rest = s.subrange(d, s.len() as int);
            let rest2 = if rest.len() > 0 && rest[0] == '.' {
                rest.drop_first()
            } else {
                rest
            };
            let rest3 = spec_trim_start(rest2);
            if rest3.len() == 0 {
                None
            } else {
                Some(rest3)
            }
        }
    }
}

/// The artist/title split of a stem: the parts before and after the first
/// `" - "`, both trimmed, both required non-empty.
pub open spec fn spec_try_artist_title(s: Seq<char>) -> Option<(Seq<char>, Seq<char>)> {
    let i = first_sep_idx(s);
    if i < 0 {
        None
    } else {
        let a = spec_trim(s.subrange(0, i));
        let t = spec_trim(s.subrange(i + 3, s.len() as int));
        if a.len() == 0 || t.len() == 0 {
            None
        } else {
            Some((a, t))
        }
    }
}

/// The artist/title split after removing a leading track number.
pub open spec fn spec_try_numbered_artist_title(s: Seq<char>) -> Option<(Seq<char>, Seq<char>)> {
    match spec_strip_track_number(s) {
        Some(rest) => spec_try_artist_title(rest),
        None => None,
    }
}

/// The title alone after removing a leading track number.
pub open spec fn spec_try_numbered_title(s: Seq<char>) -> Option<Seq<char>> {
    match spec_strip_track_number(s) {
        Some(rest) => {
            let t = spec_trim(rest);
            if t.len() == 0 {
                None
            } else {
                Some(t)
            }
        },
        None => None,
    }
}

/// A record produced by the filename heuristic: only title and artist can be
/// present, and the provenance is "filename".
pub open spec fn filename_record(title: Option<Seq<char>>, artist: Option<Seq<char>>) -> TrackInfoV {
    TrackInfoV {
        title: title,
        artist: artist,
        album: None,
        album_artist: None,
        track_number: None,
        year: None,
        genre: None,
        album_art: None,
        album_art_url: None,
        source: "filename"@,
    }
}

/// What parsing a trimmed stem yields, trying each convention in order:
/// numbered artist-title, artist-title, numbered title, and the whole stem
/// as the title.
pub open spec fn spec_parse_stem(stem: Seq<char>) -> TrackInfoV {
    match spec_try_numbered_artist_title(stem) {
        Some(at) => filename_record(Some(at.1), Some(at.0)),
        None => match spec_try_artist_title(stem) {
            Some(at) => filename_record(Some(at.1), Some(at.0)),
            None => match spec_try_numbered_title(stem) {
                Some(t) => filename_record(Some(t), None),
                None => filename_record(Some(stem), None),
            },
        },
    }
}

/// The position after the last `.` of a name, or a negative value when the
/// name has no `.`.
pub open spec fn last_dot_idx(name: Seq<char>) -> int
    decreases name.len(),
{
    if name.len() == 0 {
        -1
    } else if name[name.len() - 1] == '.' {
        name.len() - 1
    } else {
        last_dot_idx(name.drop_last())
    }
}

pub proof fn lemma_last_dot_idx_bounds(name: Seq<char>)
    ensures
        -1 <= last_dot_idx(name) < name.len(),
    decreases name.len(),
{
    if name.len() > 0 && name[name.len() - 1] != '.' {
        lemma_last_dot_idx_bounds(name.drop_last());
    }
}

/// The stem of a file name: everything before the last `.`, unless the only
/// `.` leads the name, in which case the whole name stands.
pub open spec fn spec_stem_of(name: Seq<char>) -> Seq<char> {
    let d = last_dot_idx(name);
    if d > 0 {
        name.subrange(0, d)
    } else {
        name
    }
}

/// What `parse_filename` yields on a path: the file name's stem, trimmed,
/// run through the conventions; a record with no fields when the path has no
/// file name.
pub open spec fn spec_parse_filename(path: Seq<char>) -> TrackInfoV {
    match spec_path_file_name(path) {
        Some(name) => {
            let stem = spec_stem_of(name);
            if stem.len() == 0 {
                filename_record(None, None)
            } else {
                spec_parse_stem(spec_trim(stem))
            }
        },
        None => filename_record(None, None),
    }
}

pub proof fn lemma_last_dot_scan(s: Seq<char>, i: int)
    requires
        0 <= i <= s.len(),
        forall|k: int| i <= k < s.len() ==> s[k] != '.',
    ensures
        last_dot_idx(s) == last_dot_idx(s.subrange(0, i)),
    decreases s.len() - i,
{
    if i < s.len() {
        assert(s[s.len() - 1] != '.');
        assert(s.drop_last() =~= s.subrange(0, s.len() - 1));
        lemma_last_dot_scan(s.subrange(0, s.len() - 1), i);
        assert(s.subrange(0, s.len() - 1).subrange(0, i) =~= s.subrange(0, i));
    } else {
        assert(s.subrange(0, i) =~= s);
    }
}

/// The stem of a file name, before the last `.` when one follows the first
/// character.
fn stem_of<'a>(name: &'a str) -> (r: &'a str)
    ensures
        r@ == spec_stem_of(name@),
{
    let n: usize = name.unicode_len();
    let mut i: usize = n;
    while i > 0 && name.get_char(i - 1) != '.'
        invariant
            0 <= i <= n,
            n == name@.len(),
            forall|k: int| i <= k < n ==> name@[k] != '.',
        decreases i,
    {
        i = i - 1;
    }
    proof {
        lemma_last_dot_scan(name@, i as int);
        if i > 0 {
            assert(name@.subrange(0, i as int)[i - 1] == '.');
        }
    }
    if i > 1 {
        name.substring_char(0, i - 1)
    } else {
        proof {
            assert(name@.subrange(0, n as int) =~= name@);
        }
        name.substring_char(0, n)
    }
}

/// The position of the first `" - "` in `s`, if any.
fn find_sep(s: &str) -> (r: Option<usize>)
    ensures
        match r {
            Some(i) => first_sep_idx(s@) == i as int,
            None => first_sep_idx(s@) < 0,
        },
{
    let n: usize = s.unicode_len();
    if n < 3 {
        proof {
            lemma_first_sep_idx(s@);
            if first_sep_idx(s@) >= 0 {
                assert(sep_at(s@, first_sep_idx(s@)));
            }
        }
        return None;
    }
    let mut i: usize = 0;
    while i <= n - 3
        invariant
            3 <= n,
            0 <= i <= n,
            n == s@.len(),
            forall|j: int| 0 <= j < i ==> !sep_at(s@, j),
        decreases n - i,
    {
        if s.get_char(i) == ' ' && s.get_char(i + 1) == '-' && s.get_char(i + 2) == ' ' {
            proof {
                assert(sep_at(s@, i as int));
                lemma_first_sep_idx(s@);
                if first_sep_idx(s@) < 0 {
                    assert(!sep_at(s@, i as int));
                }
                if first_sep_idx(s@) > i as int {
                    assert(!sep_at(s@, i as int));
                }
                if first_sep_idx(s@) < i as int {
                    assert(!sep_at(s@, first_sep_idx(s@)));
                }
            }
            return Some(i);
        }
        i = i + 1;
    }
    proof {
        assert(forall|j: int| i <= j ==> !sep_at(s@, j));
        lemma_first_sep_idx(s@);
        if first_sep_idx(s@) >= 0 {
            assert(!sep_at(s@, first_sep_idx(s@)));
        }
    }
    None
}

/// Splits a stem on the first `" - "` into a trimmed artist and title,
/// requiring both non-empty.
fn try_artist_title(stem: &str) -> (r: Option<TrackInfo>)
    ensures
        match spec_try_artist_title(stem@) {
            Some(at) => r is Some && r.unwrap()@ == filename_record(Some(at.1), Some(at.0)),
            None => r is None,
        },
{
    let n: usize = stem.unicode_len();
    let i = match find_sep(stem) {
        Some(i) => i,
        None => {
            return None;
        },
    };
    proof {
        lemma_first_sep_idx(stem@);
        assert(sep_at(stem@, i as int));
    }
    let artist = trim(stem.substring_char(0, i));
    let title = trim(stem.substring_char(i + 3, n));
    if artist.as_str().unicode_len() == 0 || title.as_str().unicode_len() == 0 {
        return None;
    }
    Some(
        TrackInfo {
            title: Some(title),
            artist: Some(artist),
            album: None,
            album_artist: None,
            track_number: None,
            year: None,
            genre: None,
            album_art: None,
            album_art_url: None,
            source: "filename".to_owned(),
        },
    )
}

/// Removes a leading track number (digits, an optional `.`, white space)
/// from a stem.
fn strip_track_number<'a>(stem: &'a str) -> (r: Option<&'a str>)
    ensures
        match spec_strip_track_number(stem@) {
            Some(rest) => r is Some && r.unwrap()@ == rest,
            None => r is None,
        },
{
    let n: usize = stem.unicode_len();
    if n < 2 {
        return None;
    }
    let mut d: usize = 0;
    while d < n && is_digit_char(stem.get_char(d))
        invariant
            0 <= d <= n,
            n == stem@.len(),
            forall|k: int| 0 <= k < d ==> is_digit(stem@[k]),
        decreases n - d,
    {
        d = d + 1;
    }
    proof {
        lemma_digit_prefix_len(stem@);
        assert(digit_prefix_len(stem@) == d as int) by {
            let dp = digit_prefix_len(stem@);
            if dp < d as int {
                assert(is_digit(stem@[dp]));
            }
            if dp > d as int {
                assert(is_digit(stem@[d as int]));
            }
        }
    }
    if d == 0 {
        return None;
    }
    let rest = stem.substring_char(d, n);
    let ghost rest_v = stem@.subrange(d as int, n as int);
    let rest2 = if rest.unicode_len() > 0 && rest.get_char(0) == '.' {
        proof {
            assert(rest_v.drop_first() =~= stem@.subrange(d as int + 1, n as int));
        }
        stem.substring_char(d + 1, n)
    } else {
        rest
    };
    let rest3 = trim_start_str(rest2);
    if rest3.unicode_len() == 0 {
        return None;
    }
    Some(rest3)
}

/// Tries the numbered artist-title convention.
fn try_numbered_artist_title(stem: &str) -> (r: Option<TrackInfo>)
    ensures
        match spec_try_numbered_artist_title(stem@) {
            Some(at) => r is Some && r.unwrap()@ == filename_record(Some(at.1), Some(at.0)),
            None => r is None,
        },
{
    let rest = match strip_track_number(stem) {
        Some(rest) => rest,
        None => {
            return None;
        },
    };
    try_artist_title(rest)
}

/// Tries the numbered title convention.
fn try_numbered_title(stem: &str) -> (r: Option<TrackInfo>)
    ensures
        match spec_try_numbered_title(stem@) {
            Some(t) => r is Some && r.unwrap()@ == filename_record(Some(t), None),
            None => r is None,
        },
{
    let rest = match strip_track_number(stem) {
        Some(rest) => rest,
        None => {
            return None;
        },
    };
    let title = trim(rest);
    if title.as_str().unicode_len() == 0 {
        return None;
    }
    Some(
        TrackInfo {
            title: Some(title),
            artist: None,
            album: None,
            album_artist: None,
            track_number: None,
            year: None,
            genre: None,
            album_art: None,
            album_art_url: None,
            source: "filename".to_owned(),
        },
    )
}

/// Parses the stem of `path`'s file name into a best-effort record with
/// provenance "filename": the first convention that fully matches wins, and
/// the whole trimmed stem becomes the title when none does.
pub fn parse_filename(path: &str) -> (r: TrackInfo)
    ensures
        r@ == spec_parse_filename(path@),
{
    let name = match path_file_name(path) {
        Some(name) => name,
        None => {
            return TrackInfo {
                title: None,
                artist: None,
                album: None,
                album_artist: None,
                track_number: None,
                year: None,
                genre: None,
                album_art: None,
                album_art_url: None,
                source: "filename".to_owned(),
            };
        },
    };
    let stem = stem_of(name);
    if stem.unicode_len() == 0 {
        return TrackInfo {
            title: None,
            artist: None,
            album: None,
            album_artist: None,
            track_number: None,
            year: None,
            genre: None,
            album_art: None,
            album_art_url: None,
            source: "filename".to_owned(),
        };
    }
    let stem_t = trim(stem);
    if let Some(info) = try_numbered_artist_title(stem_t.as_str()) {
        return info;
    }
    if let Some(info) = try_artist_title(stem_t.as_str()) {
        return info;
    }
    if let Some(info) = try_numbered_title(stem_t.as_str()) {
        return info;
    }
    TrackInfo {
        title: Some(stem_t),
        artist: None,
        album: None,
        album_artist: None,
        track_number: None,
        year: None,
        genre: None,
        album_art: None,
        album_art_url: None,
        source: "filename".to_owned(),
    }
}

/// Law: a stem of the form "A - B" — with A non-empty after trimming and
/// holding no separator of its own, A's first non-space character not a
/// digit (else the numbered convention takes a leading track number off),
/// and B non-empty after trimming — parses to artist A and title B, both
/// trimmed. B may itself contain further separators; the first one splits.
pub proof fn lemma_artist_title_stem(a: Seq<char>, b: Seq<char>)
    requires
        spec_trim(a).len() > 0,
        spec_trim(b).len() > 0,
        !is_digit(spec_trim(a)[0]),
        forall|j: int| 0 <= j < a.len() ==> !sep_at(#[trigger] (a + " - "@ + b), j),
    ensures
        spec_parse_stem(spec_trim(a + " - "@ + b)) == filename_record(
            Some(spec_trim(b)),
            Some(spec_trim(a)),
        ),
{
    reveal_strlit(" - ");
    let sep = " - "@;
    assert(sep.len() == 3 && sep[0] == ' ' && sep[1] == '-' && sep[2] == ' ');
    let s = a + sep + b;
    let a1 = spec_trim_start(a);
    let b1 = spec_trim_end(b);
    crate::strutil::lemma_trim_start_shape(a);
    crate::strutil::lemma_trim_end_shape(b);
    crate::strutil::lemma_trim_end_shape(a1);
    crate::strutil::lemma_trim_start_shape(b);
    // a1 and b1 are non-empty, since their trims are.
    assert(a1.len() > 0) by {
        if a1.len() == 0 {
            assert(spec_trim(a) == spec_trim_end(a1));
            assert(spec_trim_end(a1).len() <= a1.len());
        }
    }
    assert(b1.len() > 0) by {
        if b1.len() == 0 {
            // all of b is white space, so trimming it from the start leaves nothing
            assert(forall|k: int| 0 <= k < b.len() ==> is_space(b[k]));
            let c = spec_trim_start(b);
            if c.len() > 0 {
                assert(c[0] == b[b.len() - c.len()]);
                assert(!is_space(c[0]));
            }
            assert(spec_trim(b) == spec_trim_end(c));
            assert(spec_trim_end(c).len() <= c.len());
        }
    }
    // The trimmed stem is a1 + sep + b1.
    let stem = spec_trim(s);
    assert(stem == a1 + sep + b1) by {
        crate::strutil::lemma_trim_start_concat(a, sep + b);
        assert(a + sep + b =~= a + (sep + b));
        assert(spec_trim_start(s) == a1 + (sep + b));
        crate::strutil::lemma_trim_end_concat(a1 + sep, b);
        assert(a1 + (sep + b) =~= (a1 + sep) + b);
        assert(spec_trim_end((a1 + sep) + b) == (a1 + sep) + b1);
        assert((a1 + sep) + b1 =~= a1 + sep + b1);
    }
    assert(stem.len() == a1.len() + 3 + b1.len());
    // The stem starts with A's first non-space character, which is no digit,
    // so no leading track number is found.
    assert(stem[0] == a1[0]);
    assert(spec_trim(a) == spec_trim_end(a1));
    assert(spec_trim(a)[0] == a1[0]) by {
        assert(spec_trim_end(a1) == a1.subrange(0, spec_trim_end(a1).len() as int));
    }
    assert(digit_prefix_len(stem) == 0);
    assert(spec_strip_track_number(stem) is None);
    assert(spec_try_numbered_artist_title(stem) is None);
    assert(spec_try_numbered_title(stem) is None);
    // The first separator of the stem sits right after a1.
    let f = a1.len() as int;
    assert(sep_at(stem, f)) by {
        assert(stem[f] == sep[0] && stem[f + 1] == sep[1] && stem[f + 2] == sep[2]);
    }
    let off = a.len() - a1.len();
    assert forall|j: int| 0 <= j < f implies !sep_at(stem, j) by {
        if sep_at(stem, j) {
            // the same window sits at j + off in the untrimmed stem
            assert forall|t: int| 0 <= t < 3 implies s[j + off + t] == #[trigger] stem[j + t] by {
                if j + t < a1.len() {
                    assert(stem[j + t] == a1[j + t]);
                    assert(a1[j + t] == a[off + j + t]);
                    assert(s[j + off + t] == a[off + j + t]);
                } else {
                    assert(stem[j + t] == sep[j + t - a1.len()]);
                    assert(s[j + off + t] == sep[j + off + t - a.len()]);
                }
            }
            assert(sep_at(s, j + off));
            assert(0 <= j + off < a.len());
        }
    }
    assert(first_sep_idx(stem) == f) by {
        lemma_first_sep_idx(stem);
        let g = first_sep_idx(stem);
        if g < 0 {
            assert(!sep_at(stem, f));
        }
        if 0 <= g < f {
            assert(!sep_at(stem, g));
        }
        if g > f {
            assert(!sep_at(stem, f));
        }
    }
    // The artist half trims to trim(A).
    assert(stem.subrange(0, f) =~= a1);
    assert(spec_trim(a1) == spec_trim(a)) by {
        assert(spec_trim_start(a1) == a1);
    }
    // The title half trims to trim(B).
    assert(stem.subrange(f + 3, stem.len() as int) =~= b1);
    let p = b.len() - spec_trim_start(b).len();
    let q = b1.len() as int;
    assert(spec_trim(b1) == spec_trim(b)) by {
        // b's first non-space character sits at p, its last at q - 1
        assert(!is_space(b[q - 1]));
        assert(spec_trim_start(b).len() > 0) by {
            if spec_trim_start(b).len() == 0 {
                assert(is_space(b[q - 1]));
            }
        }
        assert(!is_space(spec_trim_start(b)[0]));
        assert(spec_trim_start(b)[0] == b[p]);
        assert(p <= q - 1) by {
            if q - 1 < p {
                assert(is_space(b[q - 1]));
            }
        }
        // trimming b1 from the start leaves b[p..q]
        assert(spec_trim_start(b1) =~= b.subrange(p, q)) by {
            assert(forall|k: int| 0 <= k < p ==> b1[k] == b[k] && is_space(b[k]));
            assert(b1[p] == b[p]);
            crate::strutil::lemma_trim_start_is_subrange(b1, p);
            assert(b1.subrange(p, q) =~= b.subrange(p, q));
        }
        // which ends in a non-space character, so its end trim is itself
        assert(spec_trim_end(b.subrange(p, q)) == b.subrange(p, q)) by {
            assert(b.subrange(p, q)[q - p - 1] == b[q - 1]);
        }
        // trimming b from the start leaves b[p..], whose end trim is b[p..q]
        assert(spec_trim_start(b) =~= b.subrange(p, b.len() as int));
        assert(spec_trim_end(b.subrange(p, b.len() as int)) =~= b.subrange(p, q)) by {
            let t = b.subrange(p, b.len() as int);
            assert(forall|k: int| q - p <= k < t.len() ==> t[k] == b[k + p] && is_space(b[k + p]));
            assert(t[q - p - 1] == b[q - 1]);
            crate::strutil::lemma_trim_end_is_subrange(t, q - p);
            assert(t.subrange(0, q - p) =~= b.subrange(p, q));
        }
    }
    assert(spec_try_artist_title(stem) == Some((spec_trim(a), spec_trim(b))));
}

/// The search query built from a record: the artist and title that are
/// present, joined by one space; empty when both are absent.
pub open spec fn spec_search_query(t: TrackInfoV) -> Seq<char> {
    match (t.artist, t.title) {
        (Some(a), Some(ti)) => a + " "@ + ti,
        (Some(a), None) => a,
        (None, Some(ti)) => ti,
        (None, None) => Seq::empty(),
    }
}

/// Builds the catalog search query for a record: present artist and title
/// joined with a space; the empty string signals that no search is possible.
pub fn build_search_query(info: &TrackInfo) -> (r: String)
    ensures
        r@ == spec_search_query(info@),
{
    let mut out = String::new();
    let mut has_artist: bool = false;
    if let Some(artist) = &info.artist {
        out.append(artist.as_str());
        has_artist = true;
    }
    if let Some(title) = &info.title {
        if has_artist {
            out.append(" ");
        }
        out.append(title.as_str());
    }
    out
}

} // verus!
