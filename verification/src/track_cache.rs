//! Download locations of the racetrack database and the single-string cache
//! that holds all downloaded track files.

use vstd::prelude::*;

use crate::text::{append_str, chars_of, string_from_chars};
use crate::tracks::TRACK_CATALOG_LEN;

verus! {

/// Revision of the racetrack database the catalog is pinned to.
pub const REVISION: &'static str = "e59595d1f3573b30d1ded6a08984935b957688e0";

/// Base address the database files are downloaded from.
pub const BASE_URL: &'static str = "https://raw.githubusercontent.com/TUMFTM/racetrack-database";

/// Separator between two track files in the packed cache.
pub const SEPARATOR: &'static str = "\n--NANOPLAN-TRACK--\n";

/// The texts of `ts` joined, with `sep` between neighbours.
pub open spec fn join(ts: Seq<Seq<char>>, sep: Seq<char>) -> Seq<char>
    decreases ts.len(),
{
    if ts.len() == 0 {
        Seq::empty()
    } else if ts.len() == 1 {
        ts[0]
    } else {
        ts[0] + sep + join(ts.drop_first(), sep)
    }
}

/// `sep` occurs in `s` at position `i`.
pub open spec fn occurs_at(s: Seq<char>, sep: Seq<char>, i: int) -> bool {
    0 <= i && i + sep.len() <= s.len() && s.subrange(i, i + sep.len()) == sep
}

/// The first position, from `i` on, at which `sep` occurs in `s`, or -1.
pub open spec fn find_from(s: Seq<char>, sep: Seq<char>, i: int) -> int
    decreases s.len() + 1 - i,
{
    if i < 0 || i + sep.len() > s.len() {
        -1
    } else if occurs_at(s, sep, i) {
        i
    } else {
        find_from(s, sep, i + 1)
    }
}

/// A found position is an occurrence at or after the starting point.
pub proof fn lemma_find_from_bounds(s: Seq<char>, sep: Seq<char>, i: int)
    ensures
        find_from(s, sep, i) == -1 || (i <= find_from(s, sep, i) && occurs_at(
            s,
            sep,
            find_from(s, sep, i),
        )),
    decreases s.len() + 1 - i,
{
    if !(i < 0 || i + sep.len() > s.len()) && !occurs_at(s, sep, i) {
        lemma_find_from_bounds(s, sep, i + 1);
    }
}

/// The pieces of `s` from position `p` on, cut at every occurrence of `sep`:
/// what `str::split` yields for a non-empty separator.
pub open spec fn split_from(s: Seq<char>, sep: Seq<char>, p: int) -> Seq<Seq<char>>
    decreases s.len() - p,
    when sep.len() > 0 && 0 <= p
{
    proof {
        lemma_find_from_bounds(s, sep, p);
    }
    let k = find_from(s, sep, p);
    if k < 0 {
        seq![s.subrange(p, s.len() as int)]
    } else {
        seq![s.subrange(p, k)] + split_from(s, sep, k + sep.len())
    }
}

/// `t` is followed by its first occurrence of `sep` when `sep` is appended:
/// `t` holds no occurrence of `sep`, not even one that runs on into the
/// separator appended after it.
pub open spec fn separable(t: Seq<char>, sep: Seq<char>) -> bool {
    find_from(t + sep, sep, 0) == t.len()
}

/// Key of the packed track cache, tied to the pinned database revision.
pub open spec fn spec_cache_key() -> Seq<char> {
    "nanoplan.tracks."@ + REVISION@
}

/// Address of the database file `file`.
pub open spec fn spec_url(file: Seq<char>) -> Seq<char> {
    BASE_URL@ + "/"@ + REVISION@ + "/tracks/"@ + file
}

/// The downloaded track files recovered from a packed cache: present only
/// when the cache holds exactly one text per catalog track.
pub open spec fn spec_unpack(data: Seq<char>) -> Option<Seq<Seq<char>>> {
    let pieces = split_from(data, SEPARATOR@, 0);
    if pieces.len() == TRACK_CATALOG_LEN {
        Some(pieces)
    } else {
        None
    }
}

/// The views of a list of strings.
pub open spec fn string_views(v: Seq<String>) -> Seq<Seq<char>> {
    v.map_values(|s: String| s@)
}

/// Key of the packed track cache.
pub fn cache_key() -> (key: String)
    ensures
        key@ == spec_cache_key(),
{
    let mut key = String::new();
    append_str(&mut key, "nanoplan.tracks.");
    append_str(&mut key, REVISION);
    assert(key@ =~= spec_cache_key());
    key
}

/// Download address of the database file `file`.
pub fn url(file: &str) -> (address: String)
    ensures
        address@ == spec_url(file@),
{
    let mut address = String::new();
    append_str(&mut address, BASE_URL);
    append_str(&mut address, "/");
    append_str(&mut address, REVISION);
    append_str(&mut address, "/tracks/");
    append_str(&mut address, file);
    assert(address@ =~= spec_url(file@));
    address
}

/// Appending one more text extends the joined text by a separator and that text.
pub proof fn lemma_join_push(ts: Seq<Seq<char>>, t: Seq<char>, sep: Seq<char>)
    requires
        ts.len() >= 1,
    ensures
        join(ts.push(t), sep) == join(ts, sep) + sep + t,
    decreases ts.len(),
{
    if ts.len() == 1 {
        assert(ts.push(t).drop_first() =~= seq![t]);
        assert(join(ts.push(t), sep) == ts[0] + sep + join(seq![t], sep));
    } else {
        assert(ts.push(t).drop_first() =~= ts.drop_first().push(t));
        lemma_join_push(ts.drop_first(), t, sep);
        assert(join(ts.push(t), sep) == ts[0] + sep + join(ts.drop_first().push(t), sep));
        assert(join(ts.push(t), sep) =~= join(ts, sep) + sep + t);
    }
}

/// All track files in one string, separated by [`SEPARATOR`].
pub fn pack(tracks: &[String]) -> (data: String)
    ensures
        data@ == join(string_views(tracks@), SEPARATOR@),
{
    let mut data = String::new();
    let mut i: usize = 0;
    while i < tracks.len()
        invariant
            i <= tracks.len(),
            data@ == join(string_views(tracks@.take(i as int)), SEPARATOR@),
        decreases tracks.len() - i,
    {
        let ghost before = tracks@.take(i as int);
        if i > 0 {
            append_str(&mut data, SEPARATOR);
        }
        append_str(&mut data, tracks[i].as_str());
        proof {
            assert(tracks@.take(i + 1) =~= before.push(tracks@[i as int]));
            assert(string_views(tracks@.take(i + 1)) =~= string_views(before).push(
                tracks@[i as int]@,
            ));
            if i > 0 {
                lemma_join_push(string_views(before), tracks@[i as int]@, SEPARATOR@);
            } else {
                assert(string_views(before) =~= Seq::<Seq<char>>::empty());
                assert(data@ =~= tracks@[i as int]@);
            }
        }
        i = i + 1;
    }
    assert(tracks@.take(i as int) =~= tracks@);
    data
}

/// The separator is not empty.
pub proof fn lemma_separator_nonempty()
    ensures
        SEPARATOR@.len() == 20,
{
    reveal_strlit("\n--NANOPLAN-TRACK--\n");
}

/// Whether `sep` occurs in `s` at position `i`.
fn occurs_at_exec(s: &Vec<char>, sep: &Vec<char>, i: usize) -> (found: bool)
    requires
        i + sep.len() <= s.len(),
    ensures
        found == occurs_at(s@, sep@, i as int),
{
    let mut j: usize = 0;
    while j < sep.len()
        invariant
            i + sep.len() <= s.len(),
            j <= sep.len(),
            s@.subrange(i as int, i + j) == sep@.take(j as int),
        decreases sep.len() - j,
    {
        if s[i + j] != sep[j] {
            assert(s@.subrange(i as int, i + sep.len())[j as int] != sep@[j as int]);
            return false;
        }
        j = j + 1;
        assert(s@.subrange(i as int, i + j) =~= sep@.take(j as int));
    }
    assert(sep@.take(j as int) =~= sep@);
    true
}

/// The first occurrence of `sep` in `s` at or after `from`.
fn find_separator(s: &Vec<char>, sep: &Vec<char>, from: usize) -> (found: Option<usize>)
    requires
        from <= s.len(),
    ensures
        match found {
            Some(k) => find_from(s@, sep@, from as int) == k,
            None => find_from(s@, sep@, from as int) == -1,
        },
{
    if sep.len() > s.len() {
        return None;
    }
    let last = s.len() - sep.len();
    let mut i = from;
    while i <= last
        invariant
            from <= i,
            last + sep.len() == s.len(),
            find_from(s@, sep@, from as int) == find_from(s@, sep@, i as int),
        decreases last + 1 - i,
    {
        if occurs_at_exec(s, sep, i) {
            return Some(i);
        }
        if i == last {
            assert(find_from(s@, sep@, i + 1) == -1);
            return None;
        }
        i = i + 1;
    }
    None
}

/// The downloaded track files held by a packed cache, or `None` when the
/// cache does not hold exactly one text per catalog track.
pub fn unpack(data: &str) -> (tracks: Option<Vec<String>>)
    ensures
        match tracks {
            Some(v) => spec_unpack(data@) == Some(string_views(v@)),
            None => spec_unpack(data@) is None,
        },
{
    proof {
        lemma_separator_nonempty();
    }
    let s = chars_of(data);
    let sep = chars_of(SEPARATOR);
    let mut parts: Vec<String> = Vec::new();
    let mut p: usize = 0;
    loop
        invariant_except_break
            p <= s.len(),
            sep@.len() > 0,
            string_views(parts@) + split_from(s@, sep@, p as int) == split_from(s@, sep@, 0),
        ensures
            string_views(parts@) == split_from(s@, sep@, 0),
        decreases s.len() + 1 - p,
    {
        let ghost before = parts@;
        proof {
            lemma_find_from_bounds(s@, sep@, p as int);
        }
        match find_separator(&s, &sep, p) {
            None => {
                parts.push(string_from_chars(&s, p, s.len()));
                assert(string_views(parts@) =~= string_views(before) + split_from(
                    s@,
                    sep@,
                    p as int,
                ));
                break ;
            },
            Some(k) => {
                parts.push(string_from_chars(&s, p, k));
                assert(string_views(parts@) + split_from(s@, sep@, k + sep@.len()) =~= string_views(
                    before,
                ) + split_from(s@, sep@, p as int));
                p = k + sep.len();
            },
        }
    }
    if parts.len() == TRACK_CATALOG_LEN {
        Some(parts)
    } else {
        None
    }
}

/// A match inside a prefix is a match of every extension of that prefix.
proof fn lemma_find_prefix(p: Seq<char>, r: Seq<char>, sep: Seq<char>, i: int)
    requires
        find_from(p, sep, i) >= 0,
    ensures
        find_from(p + r, sep, i) == find_from(p, sep, i),
    decreases p.len() + 1 - i,
{
    lemma_find_from_bounds(p, sep, i);
    assert((p + r).subrange(i, i + sep.len()) =~= p.subrange(i, i + sep.len()));
    if !occurs_at(p, sep, i) {
        lemma_find_prefix(p, r, sep, i + 1);
    }
}

/// A separable text holds no occurrence of the separator at or after `i`.
proof fn lemma_separable_no_match(t: Seq<char>, sep: Seq<char>, i: int)
    requires
        sep.len() > 0,
        0 <= i <= t.len(),
        find_from(t + sep, sep, i) == t.len(),
    ensures
        find_from(t, sep, i) == -1,
    decreases t.len() + 1 - i,
{
    if i + sep.len() <= t.len() {
        assert((t + sep).subrange(i, i + sep.len()) =~= t.subrange(i, i + sep.len()));
        lemma_separable_no_match(t, sep, i + 1);
    }
}

/// Searching past a prefix `a` is searching the rest, shifted by `|a|`.
proof fn lemma_find_shift(a: Seq<char>, r: Seq<char>, sep: Seq<char>, j: int)
    requires
        j >= 0,
    ensures
        find_from(a + r, sep, a.len() + j) == (if find_from(r, sep, j) < 0 {
            -1
        } else {
            find_from(r, sep, j) + a.len()
        }),
    decreases r.len() + 1 - j,
{
    lemma_find_from_bounds(r, sep, j);
    if j + sep.len() <= r.len() {
        assert((a + r).subrange(a.len() + j, a.len() + j + sep.len()) =~= r.subrange(
            j,
            j + sep.len(),
        ));
        if !occurs_at(r, sep, j) {
            lemma_find_shift(a, r, sep, j + 1);
        }
    }
}

/// Splitting past a prefix `a` splits the rest.
proof fn lemma_split_shift(a: Seq<char>, r: Seq<char>, sep: Seq<char>, j: int)
    requires
        sep.len() > 0,
        0 <= j <= r.len(),
    ensures
        split_from(a + r, sep, a.len() + j) == split_from(r, sep, j),
    decreases r.len() + 1 - j,
{
    lemma_find_shift(a, r, sep, j);
    lemma_find_from_bounds(r, sep, j);
    let k = find_from(r, sep, j);
    if k < 0 {
        assert((a + r).subrange(a.len() + j, (a + r).len() as int) =~= r.subrange(j, r.len() as int));
    } else {
        assert((a + r).subrange(a.len() + j, a.len() + k) =~= r.subrange(j, k));
        lemma_split_shift(a, r, sep, k + sep.len());
    }
}

/// Splitting joined separable texts gives back the texts.
pub proof fn lemma_split_join(ts: Seq<Seq<char>>, sep: Seq<char>)
    requires
        sep.len() > 0,
        ts.len() >= 1,
        forall|i: int| 0 <= i < ts.len() ==> separable(#[trigger] ts[i], sep),
    ensures
        split_from(join(ts, sep), sep, 0) == ts,
    decreases ts.len(),
{
    let t = ts[0];
    assert(separable(ts[0], sep));
    if ts.len() == 1 {
        lemma_separable_no_match(t, sep, 0);
        assert(t.subrange(0, t.len() as int) =~= t);
        assert(split_from(t, sep, 0) =~= ts);
    } else {
        let rest = ts.drop_first();
        assert forall|i: int| 0 <= i < rest.len() implies separable(#[trigger] rest[i], sep) by {
            assert(rest[i] == ts[i + 1]);
        }
        lemma_split_join(rest, sep);
        let joined = t + sep + join(rest, sep);
        assert(join(ts, sep) == joined);
        lemma_find_prefix(t + sep, join(rest, sep), sep, 0);
        assert(find_from(joined, sep, 0) == t.len());
        assert(joined.subrange(0, t.len() as int) =~= t);
        assert((t + sep) + join(rest, sep) =~= joined);
        lemma_split_shift(t + sep, join(rest, sep), sep, 0);
        assert(split_from(joined, sep, 0) == seq![t] + split_from(joined, sep, (t.len() + sep.len()) as int));
        assert(split_from(joined, sep, 0) =~= ts);
    }
}

/// Unpacking a packed cache gives back the track files, when there is one
/// per catalog track and each of them is separable from the separator.
pub proof fn lemma_unpack_pack(tracks: Seq<Seq<char>>)
    requires
        tracks.len() == TRACK_CATALOG_LEN,
        forall|i: int| 0 <= i < tracks.len() ==> separable(#[trigger] tracks[i], SEPARATOR@),
    ensures
        spec_unpack(join(tracks, SEPARATOR@)) == Some(tracks),
{
    lemma_separator_nonempty();
    lemma_split_join(tracks, SEPARATOR@);
}

} // verus!
