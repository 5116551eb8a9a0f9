//! The data model: a partial metadata record for one track, and the record
//! produced for each scanned file.

use vstd::prelude::*;

use crate::strutil::{spec_trim, trim};

verus! {

/// Metadata of one track. Every field except `source` may be absent;
/// `source` names the mechanism that produced the record
/// ("id3", "spotify", "melon", "filename", "manual").
#[derive(Clone, Debug)]
pub struct TrackInfo {
    pub title: Option<String>,
    pub artist: Option<String>,
    pub album: Option<String>,
    pub album_artist: Option<String>,
    pub track_number: Option<u32>,
    pub year: Option<i32>,
    pub genre: Option<String>,
    /// Raw album-art bytes (JPEG or PNG).
    pub album_art: Option<Vec<u8>>,
    /// Remote reference for the album art (a URL or detail-page address).
    pub album_art_url: Option<String>,
    pub source: String,
}

/// The mathematical value of a `TrackInfo`.
pub ghost struct TrackInfoV {
    pub title: Option<Seq<char>>,
    pub artist: Option<Seq<char>>,
    pub album: Option<Seq<char>>,
    pub album_artist: Option<Seq<char>>,
    pub track_number: Option<u32>,
    pub year: Option<i32>,
    pub genre: Option<Seq<char>>,
    pub album_art: Option<Seq<u8>>,
    pub album_art_url: Option<Seq<char>>,
    pub source: Seq<char>,
}

impl View for TrackInfo {
    type V = TrackInfoV;

    open spec fn view(&self) -> TrackInfoV {
        TrackInfoV {
            title: self.title.deep_view(),
            artist: self.artist.deep_view(),
            album: self.album.deep_view(),
            album_artist: self.album_artist.deep_view(),
            track_number: self.track_number,
            year: self.year,
            genre: self.genre.deep_view(),
            album_art: self.album_art.deep_view(),
            album_art_url: self.album_art_url.deep_view(),
            source: self.source@,
        }
    }
}

/// The record with every field absent and an empty source.
pub open spec fn empty_track_info() -> TrackInfoV {
    TrackInfoV {
        title: None,
        artist: None,
        album: None,
        album_artist: None,
        track_number: None,
        year: None,
        genre: None,
        album_art: None,
        album_art_url: None,
        source: Seq::empty(),
    }
}

impl Default for TrackInfo {
    /// The empty record: every field absent, source not yet set.
    fn default() -> (r: TrackInfo)
        ensures
            r@ == empty_track_info(),
    {
        TrackInfo {
            title: None,
            artist: None,
            album: None,
            album_artist: None,
            track_number: None,
            year: None,
            genre: None,
            album_art: None,
            album_art_url: None,
            source: String::new(),
        }
    }
}

/// The placeholder shown for an absent field.
pub open spec fn unknown_text() -> Seq<char> {
    "알 수 없음"@
}

/// A present field's text, or the placeholder.
pub open spec fn display_or_unknown(field: Option<Seq<char>>) -> Seq<char> {
    match field {
        Some(s) => s,
        None => unknown_text(),
    }
}

/// The summary line for a record: "artist - title [album]" with placeholders
/// for absent fields.
pub open spec fn spec_summary(t: TrackInfoV) -> Seq<char> {
    display_or_unknown(t.artist) + " - "@ + display_or_unknown(t.title) + " ["@
        + display_or_unknown(t.album) + "]"@
}

impl TrackInfo {
    /// The title, or a placeholder when absent.
    pub fn display_title(&self) -> (r: &str)
        ensures
            r@ == display_or_unknown(self@.title),
    {
        match &self.title {
            Some(t) => t.as_str(),
            None => "알 수 없음",
        }
    }

    /// The artist, or a placeholder when absent.
    pub fn display_artist(&self) -> (r: &str)
        ensures
            r@ == display_or_unknown(self@.artist),
    {
        match &self.artist {
            Some(t) => t.as_str(),
            None => "알 수 없음",
        }
    }

    /// The album, or a placeholder when absent.
    pub fn display_album(&self) -> (r: &str)
        ensures
            r@ == display_or_unknown(self@.album),
    {
        match &self.album {
            Some(t) => t.as_str(),
            None => "알 수 없음",
        }
    }

    /// A one-line summary: "artist - title [album]".
    pub fn summary(&self) -> (r: String)
        ensures
            r@ == spec_summary(self@),
    {
        let mut out = String::new();
        out.append(self.display_artist());
        out.append(" - ");
        out.append(self.display_title());
        out.append(" [");
        out.append(self.display_album());
        out.append("]");
        out
    }
}

/// The index where the file-name part of a path starts: right after the last
/// `/`, or zero when the path has none.
pub open spec fn file_name_start(p: Seq<char>) -> int
    decreases p.len(),
{
    if p.len() == 0 {
        0
    } else if p[p.len() - 1] == '/' {
        p.len() as int
    } else {
        file_name_start(p.drop_last())
    }
}

/// The file-name part of a path: everything after the last `/`.
pub open spec fn spec_file_name(p: Seq<char>) -> Seq<char> {
    p.subrange(file_name_start(p), p.len() as int)
}

pub broadcast proof fn lemma_file_name_start_bounds(p: Seq<char>)
    ensures
        0 <= #[trigger] file_name_start(p) <= p.len(),
    decreases p.len(),
{
    if p.len() > 0 && p[p.len() - 1] != '/' {
        lemma_file_name_start_bounds(p.drop_last());
    }
}

pub proof fn lemma_file_name_start_scan(p: Seq<char>, i: int)
    requires
        0 <= i <= p.len(),
        forall|k: int| i <= k < p.len() ==> p[k] != '/',
    ensures
        file_name_start(p) == file_name_start(p.subrange(0, i)),
    decreases p.len() - i,
{
    if i < p.len() {
        assert(p[p.len() - 1] != '/');
        assert(p.drop_last() =~= p.subrange(0, p.len() - 1));
        lemma_file_name_start_scan(p.subrange(0, p.len() - 1), i);
        assert(p.subrange(0, p.len() - 1).subrange(0, i) =~= p.subrange(0, i));
    } else {
        assert(p.subrange(0, i) =~= p);
    }
}

/// The file-name part of a path: everything after the last `/`.
pub fn file_name_of<'a>(p: &'a str) -> (r: &'a str)
    ensures
        r@ == spec_file_name(p@),
{
    let n: usize = p.unicode_len();
    let mut i: usize = n;
    while i > 0 && p.get_char(i - 1) != '/'
        invariant
            0 <= i <= n,
            n == p@.len(),
            forall|k: int| i <= k < n ==> p@[k] != '/',
        decreases i,
    {
        i = i - 1;
    }
    proof {
        lemma_file_name_start_scan(p@, i as int);
        if i > 0 {
            assert(p@.subrange(0, i as int)[i - 1] == '/');
        }
        assert(file_name_start(p@.subrange(0, i as int)) == i as int);
    }
    p.substring_char(i, n)
}

/// One scanned audio file: its path, the record read from its embedded tags
/// (absent when it had none usable), and the resulting classification.
#[derive(Clone, Debug)]
pub struct Mp3File {
    pub path: String,
    pub current_tags: Option<TrackInfo>,
    pub has_tags: bool,
}

/// The mathematical value of an `Mp3File`.
pub ghost struct Mp3FileV {
    pub path: Seq<char>,
    pub current_tags: Option<TrackInfoV>,
    pub has_tags: bool,
}

impl View for Mp3File {
    type V = Mp3FileV;

    open spec fn view(&self) -> Mp3FileV {
        Mp3FileV {
            path: self.path@,
            current_tags: match self.current_tags {
                Some(t) => Some(t@),
                None => None,
            },
            has_tags: self.has_tags,
        }
    }
}

/// The path with trailing separators and trailing `.` components removed, as
/// `Path` ignores them when naming the final component.
pub open spec fn spec_strip_path_tail(p: Seq<char>) -> Seq<char>
    decreases p.len(),
{
    if p.len() == 0 {
        p
    } else if p[p.len() - 1] == '/' {
        spec_strip_path_tail(p.drop_last())
    } else if p.len() >= 2 && p[p.len() - 1] == '.' && p[p.len() - 2] == '/' {
        spec_strip_path_tail(p.subrange(0, p.len() - 2))
    } else if p.len() == 1 && p[0] == '.' {
        Seq::empty()
    } else {
        p
    }
}

/// The final file-name component of a path, as `Path::file_name` sees it:
/// trailing separators and `.` components are ignored, and a path that ends
/// in a `..` component, or runs out entirely, has none.
pub open spec fn spec_path_file_name(p: Seq<char>) -> Option<Seq<char>> {
    let q = spec_strip_path_tail(p);
    let name = q.subrange(file_name_start(q), q.len() as int);
    if q.len() == 0 {
        None
    } else if name.len() == 2 && name[0] == '.' && name[1] == '.' {
        None
    } else {
        Some(name)
    }
}

/// The final file-name component of a path, as `Path::file_name` yields it.
pub fn path_file_name<'a>(p: &'a str) -> (r: Option<&'a str>)
    ensures
        match r {
            Some(name) => spec_path_file_name(p@) == Some(name@),
            None => spec_path_file_name(p@) is None,
        },
{
    let full: usize = p.unicode_len();
        let mut n: usize = full;
        proof {
            assert(p@.subrange(0, full as int) =~= p@);
        }
        loop
            invariant
                n <= full,
                full == p@.len(),
                spec_strip_path_tail(p@) == spec_strip_path_tail(p@.subrange(0, n as int)),
            ensures
                n <= full,
                spec_strip_path_tail(p@) == p@.subrange(0, n as int),
            decreases n,
        {
            let ghost q = p@.subrange(0, n as int);
            if n > 0 && p.get_char(n - 1) == '/' {
                proof {
                    assert(q.drop_last() =~= p@.subrange(0, n - 1));
                }
                n = n - 1;
            } else if n >= 2 && p.get_char(n - 1) == '.' && p.get_char(n - 2) == '/' {
                proof {
                    assert(q.subrange(0, q.len() - 2) =~= p@.subrange(0, n - 2));
                }
                n = n - 2;
            } else if n == 1 && p.get_char(0) == '.' {
                proof {
                    assert(p@.subrange(0, 0) =~= Seq::<char>::empty());
                    assert(spec_strip_path_tail(q) =~= Seq::<char>::empty());
                }
                n = 0;
            } else {
                proof {
                    assert(spec_strip_path_tail(q) == q);
                }
                break ;
            }
        }
        let ghost q = spec_strip_path_tail(p@);
        if n == 0 {
            return None;
        }
        let mut i: usize = n;
        while i > 0 && p.get_char(i - 1) != '/'
            invariant
                0 <= i <= n,
                n <= full,
                full == p@.len(),
                q == p@.subrange(0, n as int),
                forall|k: int| i <= k < n ==> p@[k] != '/',
            decreases i,
        {
            i = i - 1;
        }
        proof {
            assert(forall|k: int| i <= k < n ==> #[trigger] q[k] == p@[k]);
            lemma_file_name_start_scan(q, i as int);
            if i > 0 {
                assert(q.subrange(0, i as int)[i - 1] == '/');
            }
            assert(file_name_start(q.subrange(0, i as int)) == i as int);
        }
        if n - i == 2 && p.get_char(i) == '.' && p.get_char(i + 1) == '.' {
            proof {
                assert(q.subrange(i as int, n as int)[0] == p@[i as int]);
                assert(q.subrange(i as int, n as int)[1] == p@[i + 1]);
            }
            return None;
        }
        proof {
            let name = q.subrange(file_name_start(q), q.len() as int);
            assert(name =~= p@.subrange(i as int, n as int));
            if name.len() == 2 {
                assert(name[0] == p@[i as int] && name[1] == p@[i + 1]);
            }
        }
        Some(p.substring_char(i, n))
}

impl Mp3File {
    /// The final component of the path, as `Path::file_name` names it, or a
    /// placeholder when the path has no file name.
    pub fn filename(&self) -> (r: &str)
        ensures
            r@ == match spec_path_file_name(self.path@) {
                Some(name) => name,
                None => unknown_text(),
            },
    {
        match path_file_name(self.path.as_str()) {
            Some(name) => name,
            None => "알 수 없음",
        }
    }
}

/// A copy of an optional string, equal under the view.
pub fn clone_opt_string(o: &Option<String>) -> (r: Option<String>)
    ensures
        r.deep_view() == o.deep_view(),
{
    match o {
        Some(s) => Some(s.clone()),
        None => None,
    }
}

/// A copy of optional bytes, equal under the view.
pub fn clone_opt_bytes(o: &Option<Vec<u8>>) -> (r: Option<Vec<u8>>)
    ensures
        r.deep_view() == o.deep_view(),
{
    match o {
        Some(v) => {
            let c = v.clone();
            proof {
                assert(c@ =~= v@);
            }
            Some(c)
        },
        None => None,
    }
}

/// A copy of a record, equal under the view.
pub fn clone_track_info(t: &TrackInfo) -> (r: TrackInfo)
    ensures
        r@ == t@,
{
    TrackInfo {
        title: clone_opt_string(&t.title),
        artist: clone_opt_string(&t.artist),
        album: clone_opt_string(&t.album),
        album_artist: clone_opt_string(&t.album_artist),
        track_number: t.track_number,
        year: t.year,
        genre: clone_opt_string(&t.genre),
        album_art: clone_opt_bytes(&t.album_art),
        album_art_url: clone_opt_string(&t.album_art_url),
        source: t.source.clone(),
    }
}

/// The record with its album art replaced by the given bytes; every other
/// field stands as it was.
pub fn with_album_art(t: &TrackInfo, art: Vec<u8>) -> (r: TrackInfo)
    ensures
        r@ == (TrackInfoV { album_art: Some(art@), ..t@ }),
{
    proof {
        assert(art.deep_view() =~= art@);
    }
    TrackInfo {
        title: clone_opt_string(&t.title),
        artist: clone_opt_string(&t.artist),
        album: clone_opt_string(&t.album),
        album_artist: clone_opt_string(&t.album_artist),
        track_number: t.track_number,
        year: t.year,
        genre: clone_opt_string(&t.genre),
        album_art: Some(art),
        album_art_url: clone_opt_string(&t.album_art_url),
        source: t.source.clone(),
    }
}

/// `Some` of the trimmed text when it is non-empty, else `None`.
pub fn non_empty(s: &str) -> (r: Option<String>)
    ensures
        match r {
            Some(t) => t@ == spec_trim(s@) && t@.len() > 0,
            None => spec_trim(s@).len() == 0,
        },
{
    let t = trim(s);
    if t.as_str().unicode_len() == 0 {
        None
    } else {
        Some(t)
    }
}

} // verus!
