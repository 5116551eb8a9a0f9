//! The scanner's decision logic: which paths count as MP3 files, how one
//! file's bytes become a classified record, and the deterministic ordering
//! of scan results. Walking the directory tree is filesystem work that a
//! caller does, handing each file's path and bytes here.

use vstd::prelude::*;

use crate::models::{file_name_of, spec_file_name, Mp3File};
use crate::parser::{last_dot_idx, lemma_last_dot_scan};
use crate::strutil::{lemma_lex_le_total, lemma_lex_le_trans, lex_le, str_le};
use crate::tagger::{id3_outcome, read_tags, spec_scan_record, Id3OutcomeV, TagError};

verus! {

/// The path names an MP3 file: its file name has an extension that matches
/// "mp3" regardless of ASCII case.
pub open spec fn spec_is_mp3(p: Seq<char>) -> bool {
    let name = spec_file_name(p);
    let d = last_dot_idx(name);
    d > 0 && name.len() - d - 1 == 3 && (name[d + 1] == 'm' || name[d + 1] == 'M') && (name[d + 2]
        == 'p' || name[d + 2] == 'P') && name[d + 3] == '3'
}

/// Whether the path names an MP3 file, by its extension, ignoring ASCII case.
pub fn is_mp3(path: &str) -> (r: bool)
    ensures
        r == spec_is_mp3(path@),
{
    let name = file_name_of(path);
    let n: usize = name.unicode_len();
    let mut i: usize = n;
    while i > 0 && name.get_char(i - 1) != '.'
        invariant
            0 <= i <= n,
            n == name@.len(),
            forall|k: int| i <= k < n ==> name@[k] != '.',
        decreases i,
    {
        i = i - 1;
    }
    proof {
        lemma_last_dot_scan(name@, i as int);
        if i > 0 {
            assert(name@.subrange(0, i as int)[i - 1] == '.');
        }
    }
    if i <= 1 {
        return false;
    }
    let d: usize = i - 1;
    if n - d - 1 != 3 {
        return false;
    }
    let c0 = name.get_char(d + 1);
    let c1 = name.get_char(d + 2);
    let c2 = name.get_char(d + 3);
    (c0 == 'm' || c0 == 'M') && (c1 == 'p' || c1 == 'P') && c2 == '3'
}

/// Wraps one file's path and bytes in a classified record: the embedded
/// metadata when the bytes carry a container with a usable field, and the
/// resulting "has usable tags" flag. A malformed container counts as "no
/// tags", as a scan must go on; `try_load_mp3_file` raises it instead.
pub fn load_mp3_file(path: String, data: &[u8]) -> (r: Mp3File)
    ensures
        r@.path == path@,
        r@.has_tags == (r@.current_tags is Some),
        r@.current_tags == spec_scan_record(id3_outcome(data@)),
{
    match read_tags(data) {
        Ok(Some(tags)) => Mp3File { path, current_tags: Some(tags), has_tags: true },
        _ => Mp3File { path, current_tags: None, has_tags: false },
    }
}

/// Wraps one file's path and bytes in a classified record, but reports a
/// malformed container as the error it is, for loading a single named file
/// rather than scanning a tree.
pub fn try_load_mp3_file(path: String, data: &[u8]) -> (r: Result<Mp3File, TagError>)
    ensures
        match r {
            Ok(f) => !(id3_outcome(data@) is Malformed) && f@.path == path@ && f@.has_tags == (
            f@.current_tags is Some) && f@.current_tags == spec_scan_record(id3_outcome(data@)),
            Err(_) => id3_outcome(data@) is Malformed,
        },
{
    match read_tags(data) {
        Ok(Some(tags)) => Ok(Mp3File { path, current_tags: Some(tags), has_tags: true }),
        Ok(None) => Ok(Mp3File { path, current_tags: None, has_tags: false }),
        Err(e) => Err(e),
    }
}

/// The records are ordered by path.
pub open spec fn sorted_by_path(s: Seq<Mp3File>) -> bool {
    forall|i: int, j: int| 0 <= i < j < s.len() ==> lex_le(s[i].path@, s[j].path@)
}

/// `x` inserted into `s` after every record whose path is at most `x`'s.
pub open spec fn spec_insert_file(x: Mp3File, s: Seq<Mp3File>) -> Seq<Mp3File>
    decreases s.len(),
{
    if s.len() == 0 {
        seq![x]
    } else if !lex_le(s[0].path@, x.path@) {
        seq![x] + s
    } else {
        seq![s[0]] + spec_insert_file(x, s.drop_first())
    }
}

/// `s` sorted by path, stably, by repeated insertion.
pub open spec fn spec_sort_files(s: Seq<Mp3File>) -> Seq<Mp3File>
    decreases s.len(),
{
    if s.len() == 0 {
        s
    } else {
        spec_insert_file(s.last(), spec_sort_files(s.drop_last()))
    }
}

proof fn lemma_insert_file_sorted(x: Mp3File, s: Seq<Mp3File>)
    requires
        sorted_by_path(s),
    ensures
        sorted_by_path(spec_insert_file(x, s)),
        spec_insert_file(x, s).to_multiset() =~= s.to_multiset().insert(x),
        spec_insert_file(x, s).len() == s.len() + 1,
        forall|j: int|
            0 <= j < s.len() + 1 ==> (#[trigger] spec_insert_file(x, s)[j] == x || s.contains(
                spec_insert_file(x, s)[j],
            )),
    decreases s.len(),
{
    broadcast use vstd::seq_lib::group_to_multiset_ensures;

    if s.len() == 0 {
        assert(seq![x] =~= Seq::empty().push(x));
        assert(seq![x].to_multiset() =~= s.to_multiset().insert(x));
    } else if !lex_le(s[0].path@, x.path@) {
        let r = seq![x] + s;
        lemma_lex_le_total(s[0].path@, x.path@);
        assert forall|i: int, j: int| 0 <= i < j < r.len() implies lex_le(
            r[i].path@,
            r[j].path@,
        ) by {
            if i == 0 {
                if j == 1 {
                    assert(r[j] == s[0]);
                } else {
                    assert(lex_le(s[0].path@, s[j - 1].path@));
                    lemma_lex_le_trans(x.path@, s[0].path@, s[j - 1].path@);
                }
            } else {
                assert(r[i] == s[i - 1] && r[j] == s[j - 1]);
            }
        }
        assert(r =~= s.insert(0, x));
        vstd::seq_lib::to_multiset_insert(s, 0, x);
        assert forall|j: int| 0 <= j < s.len() + 1 implies (#[trigger] r[j] == x || s.contains(
            r[j],
        )) by {
            if j > 0 {
                assert(r[j] == s[j - 1]);
            }
        }
    } else {
        let t = s.drop_first();
        assert(sorted_by_path(t)) by {
            assert(forall|i: int, j: int|
                0 <= i < j < t.len() ==> t[i] == s[i + 1] && t[j] == s[j + 1]);
        }
        lemma_insert_file_sorted(x, t);
        let rt = spec_insert_file(x, t);
        let r = seq![s[0]] + rt;
        assert forall|i: int, j: int| 0 <= i < j < r.len() implies lex_le(
            r[i].path@,
            r[j].path@,
        ) by {
            if i == 0 {
                assert(r[j] == rt[j - 1]);
                if rt[j - 1] == x {
                    assert(lex_le(s[0].path@, x.path@));
                } else {
                    assert(t.contains(rt[j - 1]));
                    let w = choose|w: int| 0 <= w < t.len() && t[w] == rt[j - 1];
                    assert(t[w] == s[w + 1]);
                    assert(lex_le(s[0].path@, s[w + 1].path@));
                }
            } else {
                assert(r[i] == rt[i - 1] && r[j] == rt[j - 1]);
            }
        }
        assert(r.to_multiset() =~= s.to_multiset().insert(x)) by {
            assert(seq![s[0]] + rt =~= rt.insert(0, s[0]));
            vstd::seq_lib::to_multiset_insert(rt, 0, s[0]);
            assert(seq![s[0]] + t =~= t.insert(0, s[0]));
            vstd::seq_lib::to_multiset_insert(t, 0, s[0]);
            assert(s =~= seq![s[0]] + t);
            assert(r.to_multiset() =~= rt.to_multiset().insert(s[0]));
            assert(rt.to_multiset() =~= t.to_multiset().insert(x));
            assert(s.to_multiset() =~= t.to_multiset().insert(s[0]));
        }
        assert forall|j: int| 0 <= j < s.len() + 1 implies (#[trigger] r[j] == x || s.contains(
            r[j],
        )) by {
            if j == 0 {
                assert(s.contains(s[0])) by {
                    assert(s[0] == s[0]);
                }
            } else {
                assert(r[j] == rt[j - 1]);
                if rt[j - 1] != x {
                    assert(t.contains(rt[j - 1]));
                    let w = choose|w: int| 0 <= w < t.len() && t[w] == rt[j - 1];
                    assert(s[w + 1] == t[w]);
                }
            }
        }
    }
}

/// The sort orders the records by path and keeps exactly the given records.
pub proof fn lemma_sort_files_sorted(s: Seq<Mp3File>)
    ensures
        sorted_by_path(spec_sort_files(s)),
        spec_sort_files(s).to_multiset() =~= s.to_multiset(),
    decreases s.len(),
{
    broadcast use vstd::seq_lib::group_to_multiset_ensures;

    if s.len() > 0 {
        lemma_sort_files_sorted(s.drop_last());
        lemma_insert_file_sorted(s.last(), spec_sort_files(s.drop_last()));
        assert(s =~= s.drop_last().push(s.last()));
        assert(s.to_multiset() =~= s.drop_last().to_multiset().insert(s.last()));
    }
}

proof fn lemma_spec_insert_file_at(x: Mp3File, s: Seq<Mp3File>, k: int)
    requires
        0 <= k <= s.len(),
        forall|i: int| 0 <= i < k ==> lex_le(s[i].path@, x.path@),
        k < s.len() ==> !lex_le(s[k].path@, x.path@),
    ensures
        spec_insert_file(x, s) == s.insert(k, x),
    decreases k,
{
    if k == 0 {
        if s.len() == 0 {
            assert(seq![x] =~= s.insert(0, x));
        } else {
            assert(seq![x] + s =~= s.insert(0, x));
        }
    } else {
        assert(lex_le(s[0].path@, x.path@));
        let t = s.drop_first();
        assert(forall|i: int| 0 <= i < k - 1 ==> #[trigger] t[i] == s[i + 1]);
        if k - 1 < t.len() {
            assert(t[k - 1] == s[k]);
        }
        lemma_spec_insert_file_at(x, t, k - 1);
        assert(seq![s[0]] + t.insert(k - 1, x) =~= s.insert(k, x));
    }
}

fn insert_file(r: &mut Vec<Mp3File>, x: Mp3File)
    ensures
        final(r)@ == spec_insert_file(x, old(r)@),
{
    let n: usize = r.len();
    let mut k: usize = 0;
    while k < n && str_le(r[k].path.as_str(), x.path.as_str())
        invariant
            0 <= k <= n,
            n == r@.len(),
            forall|i: int| 0 <= i < k ==> lex_le(r@[i].path@, x.path@),
        decreases n - k,
    {
        k = k + 1;
    }
    proof {
        lemma_spec_insert_file_at(x, r@, k as int);
    }
    r.insert(k, x);
}

/// Sorts scan results by path, stably, so that a scan's outcome is
/// deterministic.
pub fn sort_files(files: Vec<Mp3File>) -> (r: Vec<Mp3File>)
    ensures
        r@ == spec_sort_files(files@),
        sorted_by_path(r@),
        r@.to_multiset() == files@.to_multiset(),
{
    let ghost orig = files@;
    let mut files = files;
    let mut out: Vec<Mp3File> = Vec::new();
    while files.len() > 0
        invariant
            files@.len() <= orig.len(),
            files@ =~= orig.subrange(orig.len() - files@.len(), orig.len() as int),
            out@ == spec_sort_files(orig.subrange(0, orig.len() - files@.len())),
        decreases files@.len(),
    {
        let ghost done = orig.len() - files@.len();
        let x = files.remove(0);
        proof {
            assert(x == orig.subrange(done, orig.len() as int)[0]);
            assert(files@ =~= orig.subrange(done + 1, orig.len() as int));
            assert(orig.subrange(0, done + 1).drop_last() =~= orig.subrange(0, done));
            assert(orig.subrange(0, done + 1).last() == x);
        }
        insert_file(&mut out, x);
    }
    proof {
        assert(orig.subrange(0, orig.len() as int) =~= orig);
        lemma_sort_files_sorted(orig);
    }
    out
}

/// The paths are in lexicographic order.
pub open spec fn sorted_paths(s: Seq<String>) -> bool {
    forall|i: int, j: int| 0 <= i < j < s.len() ==> lex_le(s[i]@, s[j]@)
}

/// `x` inserted into `s` after every path at most `x`.
pub open spec fn spec_insert_path(x: String, s: Seq<String>) -> Seq<String>
    decreases s.len(),
{
    if s.len() == 0 {
        seq![x]
    } else if !lex_le(s[0]@, x@) {
        seq![x] + s
    } else {
        seq![s[0]] + spec_insert_path(x, s.drop_first())
    }
}

/// `s` sorted lexicographically, stably, by repeated insertion.
pub open spec fn spec_sort_paths(s: Seq<String>) -> Seq<String>
    decreases s.len(),
{
    if s.len() == 0 {
        s
    } else {
        spec_insert_path(s.last(), spec_sort_paths(s.drop_last()))
    }
}

proof fn lemma_insert_path_sorted(x: String, s: Seq<String>)
    requires
        sorted_paths(s),
    ensures
        sorted_paths(spec_insert_path(x, s)),
        spec_insert_path(x, s).to_multiset() =~= s.to_multiset().insert(x),
        spec_insert_path(x, s).len() == s.len() + 1,
        forall|j: int|
            0 <= j < s.len() + 1 ==> (#[trigger] spec_insert_path(x, s)[j] == x || s.contains(
                spec_insert_path(x, s)[j],
            )),
    decreases s.len(),
{
    broadcast use vstd::seq_lib::group_to_multiset_ensures;

    if s.len() == 0 {
        assert(seq![x] =~= Seq::empty().push(x));
        assert(seq![x].to_multiset() =~= s.to_multiset().insert(x));
    } else if !lex_le(s[0]@, x@) {
        let r = seq![x] + s;
        lemma_lex_le_total(s[0]@, x@);
        assert forall|i: int, j: int| 0 <= i < j < r.len() implies lex_le(r[i]@, r[j]@) by {
            if i == 0 {
                if j == 1 {
                    assert(r[j] == s[0]);
                } else {
                    assert(lex_le(s[0]@, s[j - 1]@));
                    lemma_lex_le_trans(x@, s[0]@, s[j - 1]@);
                }
            } else {
                assert(r[i] == s[i - 1] && r[j] == s[j - 1]);
            }
        }
        assert(r =~= s.insert(0, x));
        vstd::seq_lib::to_multiset_insert(s, 0, x);
        assert forall|j: int| 0 <= j < s.len() + 1 implies (#[trigger] r[j] == x || s.contains(
            r[j],
        )) by {
            if j > 0 {
                assert(r[j] == s[j - 1]);
            }
        }
    } else {
        let t = s.drop_first();
        assert(sorted_paths(t)) by {
            assert(forall|i: int, j: int|
                0 <= i < j < t.len() ==> t[i] == s[i + 1] && t[j] == s[j + 1]);
        }
        lemma_insert_path_sorted(x, t);
        let rt = spec_insert_path(x, t);
        let r = seq![s[0]] + rt;
        assert forall|i: int, j: int| 0 <= i < j < r.len() implies lex_le(r[i]@, r[j]@) by {
            if i == 0 {
                assert(r[j] == rt[j - 1]);
                if rt[j - 1] == x {
                    assert(lex_le(s[0]@, x@));
                } else {
                    assert(t.contains(rt[j - 1]));
                    let w = choose|w: int| 0 <= w < t.len() && t[w] == rt[j - 1];
                    assert(t[w] == s[w + 1]);
                    assert(lex_le(s[0]@, s[w + 1]@));
                }
            } else {
                assert(r[i] == rt[i - 1] && r[j] == rt[j - 1]);
            }
        }
        assert(r.to_multiset() =~= s.to_multiset().insert(x)) by {
            assert(seq![s[0]] + rt =~= rt.insert(0, s[0]));
            vstd::seq_lib::to_multiset_insert(rt, 0, s[0]);
            assert(seq![s[0]] + t =~= t.insert(0, s[0]));
            vstd::seq_lib::to_multiset_insert(t, 0, s[0]);
            assert(s =~= seq![s[0]] + t);
            assert(r.to_multiset() =~= rt.to_multiset().insert(s[0]));
            assert(rt.to_multiset() =~= t.to_multiset().insert(x));
            assert(s.to_multiset() =~= t.to_multiset().insert(s[0]));
        }
        assert forall|j: int| 0 <= j < s.len() + 1 implies (#[trigger] r[j] == x || s.contains(
            r[j],
        )) by {
            if j == 0 {
                assert(s.contains(s[0])) by {
                    assert(s[0] == s[0]);
                }
            } else {
                assert(r[j] == rt[j - 1]);
                if rt[j - 1] != x {
                    assert(t.contains(rt[j - 1]));
                    let w = choose|w: int| 0 <= w < t.len() && t[w] == rt[j - 1];
                    assert(s[w + 1] == t[w]);
                }
            }
        }
    }
}

/// The sort orders the paths and keeps exactly the given paths.
pub proof fn lemma_sort_paths_sorted(s: Seq<String>)
    ensures
        sorted_paths(spec_sort_paths(s)),
        spec_sort_paths(s).to_multiset() =~= s.to_multiset(),
    decreases s.len(),
{
    broadcast use vstd::seq_lib::group_to_multiset_ensures;

    if s.len() > 0 {
        lemma_sort_paths_sorted(s.drop_last());
        lemma_insert_path_sorted(s.last(), spec_sort_paths(s.drop_last()));
        assert(s =~= s.drop_last().push(s.last()));
        assert(s.to_multiset() =~= s.drop_last().to_multiset().insert(s.last()));
    }
}

proof fn lemma_spec_insert_path_at(x: String, s: Seq<String>, k: int)
    requires
        0 <= k <= s.len(),
        forall|i: int| 0 <= i < k ==> lex_le(s[i]@, x@),
        k < s.len() ==> !lex_le(s[k]@, x@),
    ensures
        spec_insert_path(x, s) == s.insert(k, x),
    decreases k,
{
    if k == 0 {
        if s.len() == 0 {
            assert(seq![x] =~= s.insert(0, x));
        } else {
            assert(seq![x] + s =~= s.insert(0, x));
        }
    } else {
        assert(lex_le(s[0]@, x@));
        let t = s.drop_first();
        assert(forall|i: int| 0 <= i < k - 1 ==> #[trigger] t[i] == s[i + 1]);
        if k - 1 < t.len() {
            assert(t[k - 1] == s[k]);
        }
        lemma_spec_insert_path_at(x, t, k - 1);
        assert(seq![s[0]] + t.insert(k - 1, x) =~= s.insert(k, x));
    }
}

fn insert_path(r: &mut Vec<String>, x: String)
    ensures
        final(r)@ == spec_insert_path(x, old(r)@),
{
    let n: usize = r.len();
    let mut k: usize = 0;
    while k < n && str_le(r[k].as_str(), x.as_str())
        invariant
            0 <= k <= n,
            n == r@.len(),
            forall|i: int| 0 <= i < k ==> lex_le(r@[i]@, x@),
        decreases n - k,
    {
        k = k + 1;
    }
    proof {
        lemma_spec_insert_path_at(x, r@, k as int);
    }
    r.insert(k, x);
}

/// Sorts a listing of paths lexicographically, stably, so that a search's
/// outcome is deterministic.
pub fn sort_paths(paths: Vec<String>) -> (r: Vec<String>)
    ensures
        r@ == spec_sort_paths(paths@),
        sorted_paths(r@),
        r@.to_multiset() == paths@.to_multiset(),
{
    let ghost orig = paths@;
    let mut paths = paths;
    let mut out: Vec<String> = Vec::new();
    while paths.len() > 0
        invariant
            paths@.len() <= orig.len(),
            paths@ =~= orig.subrange(orig.len() - paths@.len(), orig.len() as int),
            out@ == spec_sort_paths(orig.subrange(0, orig.len() - paths@.len())),
        decreases paths@.len(),
    {
        let ghost done = orig.len() - paths@.len();
        let x = paths.remove(0);
        proof {
            assert(x == orig.subrange(done, orig.len() as int)[0]);
            assert(paths@ =~= orig.subrange(done + 1, orig.len() as int));
            assert(orig.subrange(0, done + 1).drop_last() =~= orig.subrange(0, done));
            assert(orig.subrange(0, done + 1).last() == x);
        }
        insert_path(&mut out, x);
    }
    proof {
        assert(orig.subrange(0, orig.len() as int) =~= orig);
        lemma_sort_paths_sorted(orig);
    }
    out
}

} // verus!
