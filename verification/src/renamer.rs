//! The renamer: replaces filesystem-unsafe characters, derives the canonical
//! "artist - title.mp3" file name from a record, and plans a non-destructive
//! rename. The plan says exactly what the filesystem step may do; performing
//! it is the caller's work.

use vstd::prelude::*;

use crate::models::{file_name_start, TrackInfo, TrackInfoV};
use crate::strutil::{push_char, spec_trim, str_eq, trim};

verus! {

/// `c` may not appear in a file name. `/` and the null character are always
/// unsafe; under Windows-class rules the reserved punctuation and all ASCII
/// control characters are too; where the colon is reserved (classic
/// Mac-class rule) it is as well.
pub open spec fn spec_unsafe_char(c: char, windows_rules: bool, colon_reserved: bool) -> bool {
    c == '/' || c == '\0' || (windows_rules && (c == '\\' || c == ':' || c == '*' || c == '?'
        || c == '"' || c == '<' || c == '>' || c == '|' || (c as u32) <= 0x1F || (c as u32)
        == 0x7F)) || (colon_reserved && c == ':')
}

fn unsafe_char(c: char, windows_rules: bool, colon_reserved: bool) -> (r: bool)
    ensures
        r == spec_unsafe_char(c, windows_rules, colon_reserved),
{
    c == '/' || c == '\0' || (windows_rules && (c == '\\' || c == ':' || c == '*' || c == '?'
        || c == '"' || c == '<' || c == '>' || c == '|' || (c as u32) <= 0x1F || (c as u32)
        == 0x7F)) || (colon_reserved && c == ':')
}

/// `s` with every unsafe character replaced by `_`.
pub open spec fn spec_sanitize(s: Seq<char>, windows_rules: bool, colon_reserved: bool) -> Seq<
    char,
> {
    s.map_values(
        |c: char|
            if spec_unsafe_char(c, windows_rules, colon_reserved) {
                '_'
            } else {
                c
            },
    )
}

/// Replaces characters unsafe under the given naming rules with `_`.
pub fn sanitize_filename_with(s: &str, windows_rules: bool, colon_reserved: bool) -> (r: String)
    ensures
        r@ == spec_sanitize(s@, windows_rules, colon_reserved),
{
    let n: usize = s.unicode_len();
    let mut out = String::new();
    let mut i: usize = 0;
    while i < n
        invariant
            0 <= i <= n,
            n == s@.len(),
            out@ =~= spec_sanitize(s@.subrange(0, i as int), windows_rules, colon_reserved),
        decreases n - i,
    {
        let c = s.get_char(i);
        if unsafe_char(c, windows_rules, colon_reserved) {
            push_char(&mut out, '_');
        } else {
            push_char(&mut out, c);
        }
        proof {
            assert(s@.subrange(0, i + 1) =~= s@.subrange(0, i as int).push(s@[i as int]));
            assert(out@ =~= spec_sanitize(s@.subrange(0, i + 1), windows_rules, colon_reserved));
        }
        i = i + 1;
    }
    proof {
        assert(s@.subrange(0, n as int) =~= s@);
    }
    out
}

/// Law: text with no unsafe character under the given rules is sanitized to
/// itself, whatever script it is written in.
pub proof fn lemma_sanitize_safe_text(s: Seq<char>, windows_rules: bool, colon_reserved: bool)
    requires
        forall|i: int| 0 <= i < s.len() ==> !spec_unsafe_char(#[trigger] s[i], windows_rules,
        colon_reserved),
    ensures
        spec_sanitize(s, windows_rules, colon_reserved) == s,
{
    assert(spec_sanitize(s, windows_rules, colon_reserved) =~= s);
}

/// Replaces the universally unsafe characters, `/` and the null character,
/// with `_`. `sanitize_filename_with` additionally covers filesystems with
/// stricter rules.
pub fn sanitize_filename(s: &str) -> (r: String)
    ensures
        r@ == spec_sanitize(s@, false, false),
{
    sanitize_filename_with(s, false, false)
}

/// The canonical file name of a record under the given naming rules:
/// "artist - title.mp3" with both fields trimmed and sanitized; absent
/// whenever artist or title is missing or empty after trimming.
pub open spec fn spec_build_filename_with(
    t: TrackInfoV,
    windows_rules: bool,
    colon_reserved: bool,
) -> Option<Seq<char>> {
    match (t.artist, t.title) {
        (Some(a), Some(ti)) => {
            let a2 = spec_trim(a);
            let t2 = spec_trim(ti);
            if a2.len() == 0 || t2.len() == 0 {
                None
            } else {
                Some(
                    spec_sanitize(a2, windows_rules, colon_reserved) + " - "@ + spec_sanitize(
                        t2,
                        windows_rules,
                        colon_reserved,
                    ) + ".mp3"@,
                )
            }
        },
        _ => None,
    }
}

/// The canonical file name under the universal rules alone.
pub open spec fn spec_build_filename(t: TrackInfoV) -> Option<Seq<char>> {
    spec_build_filename_with(t, false, false)
}

/// Builds the canonical "artist - title.mp3" file name under the given
/// naming rules, or nothing when artist or title is missing or empty after
/// trimming: for hosts whose filesystem reserves more than `/` and the null
/// character.
pub fn build_filename_with(info: &TrackInfo, windows_rules: bool, colon_reserved: bool) -> (r:
    Option<String>)
    ensures
        match r {
            Some(name) => spec_build_filename_with(info@, windows_rules, colon_reserved) == Some(
                name@,
            ),
            None => spec_build_filename_with(info@, windows_rules, colon_reserved) is None,
        },
{
    let artist = match &info.artist {
        Some(a) => trim(a.as_str()),
        None => {
            return None;
        },
    };
    let title = match &info.title {
        Some(t) => trim(t.as_str()),
        None => {
            return None;
        },
    };
    if artist.as_str().unicode_len() == 0 || title.as_str().unicode_len() == 0 {
        return None;
    }
    let mut out = sanitize_filename_with(artist.as_str(), windows_rules, colon_reserved);
    out.append(" - ");
    let st = sanitize_filename_with(title.as_str(), windows_rules, colon_reserved);
    out.append(st.as_str());
    out.append(".mp3");
    Some(out)
}

/// Builds the canonical "artist - title.mp3" file name under the universal
/// rules, or nothing when artist or title is missing or empty after trimming.
pub fn build_filename(info: &TrackInfo) -> (r: Option<String>)
    ensures
        match r {
            Some(name) => spec_build_filename(info@) == Some(name@),
            None => spec_build_filename(info@) is None,
        },
{
    build_filename_with(info, false, false)
}

/// What a rename would do, decided without touching the filesystem.
pub enum RenamePlan {
    /// Artist or title is missing: no canonical name exists.
    MissingFields,
    /// The file already carries the canonical name: nothing to do.
    AlreadyNamed { path: String },
    /// Move the file to `target`, in the same directory, unless that path is
    /// already occupied.
    MoveTo { target: String },
}

/// The mathematical value of a `RenamePlan`.
pub ghost enum RenamePlanV {
    MissingFields,
    AlreadyNamed { path: Seq<char> },
    MoveTo { target: Seq<char> },
}

impl View for RenamePlan {
    type V = RenamePlanV;

    open spec fn view(&self) -> RenamePlanV {
        match self {
            RenamePlan::MissingFields => RenamePlanV::MissingFields,
            RenamePlan::AlreadyNamed { path } => RenamePlanV::AlreadyNamed { path: path@ },
            RenamePlan::MoveTo { target } => RenamePlanV::MoveTo { target: target@ },
        }
    }
}

/// The path of a sibling of `old_path` named `name`: the directory part of
/// `old_path` (up to and including its last `/`) followed by `name`.
pub open spec fn spec_sibling_path(old_path: Seq<char>, name: Seq<char>) -> Seq<char> {
    old_path.subrange(0, file_name_start(old_path)) + name
}

/// The rename decision for a record: no plan without a canonical name, no
/// move when the target equals the current path, else a move to the sibling
/// path carrying the canonical name.
pub open spec fn spec_plan_rename(old_path: Seq<char>, t: TrackInfoV) -> RenamePlanV {
    match spec_build_filename(t) {
        None => RenamePlanV::MissingFields,
        Some(name) => {
            let target = spec_sibling_path(old_path, name);
            if target == old_path {
                RenamePlanV::AlreadyNamed { path: old_path }
            } else {
                RenamePlanV::MoveTo { target: target }
            }
        },
    }
}

/// Decides what renaming the file at `old_path` to its canonical name
/// requires: nothing when artist or title is missing, nothing when the file
/// already carries that name, else a move to the canonical sibling path.
/// No filesystem work happens here; a caller performing a `MoveTo` must
/// refuse it when the target is already occupied.
pub fn plan_rename(old_path: &str, info: &TrackInfo) -> (r: RenamePlan)
    ensures
        r@ == spec_plan_rename(old_path@, info@),
{
    let name = match build_filename(info) {
        Some(name) => name,
        None => {
            return RenamePlan::MissingFields;
        },
    };
    let n: usize = old_path.unicode_len();
    let mut i: usize = n;
    while i > 0 && old_path.get_char(i - 1) != '/'
        invariant
            0 <= i <= n,
            n == old_path@.len(),
            forall|k: int| i <= k < n ==> old_path@[k] != '/',
        decreases i,
    {
        i = i - 1;
    }
    proof {
        crate::models::lemma_file_name_start_scan(old_path@, i as int);
        if i > 0 {
            assert(old_path@.subrange(0, i as int)[i - 1] == '/');
        }
        assert(file_name_start(old_path@.subrange(0, i as int)) == i as int);
    }
    let mut target = old_path.substring_char(0, i).to_owned();
    target.append(name.as_str());
    if str_eq(target.as_str(), old_path) {
        RenamePlan::AlreadyNamed { path: target }
    } else {
        RenamePlan::MoveTo { target }
    }
}

} // verus!
