//! The racetrack catalog: the database tracks, the procedural presets and
//! how a user-supplied track name selects one of them.

use vstd::prelude::*;

use crate::text::{
    append_str, chars_equal_str, chars_of, equivalent_names, lemma_normalize_equivalent, normalize,
    normalized,
};

verus! {

/// Number of tracks in the downloaded racetrack catalog.
pub const TRACK_CATALOG_LEN: usize = 24;

/// Number of procedurally constructed preset tracks.
pub const TRACK_PRESETS_LEN: usize = 2;

/// One track of the racetrack database.
#[derive(Debug, Clone, Copy)]
pub struct TrackInfo {
    /// Lower-case identifier, words joined by `_`.
    pub id: &'static str,
    /// Display name.
    pub name: &'static str,
    /// File name in the racetrack database.
    pub file: &'static str,
}

/// The id of catalog track `i`.
pub open spec fn catalog_id(i: int) -> Seq<char> {
    if i == 0 {
        "austin"@
    } else if i == 1 {
        "brands_hatch"@
    } else if i == 2 {
        "budapest"@
    } else if i == 3 {
        "catalunya"@
    } else if i == 4 {
        "hockenheim"@
    } else if i == 5 {
        "indianapolis"@
    } else if i == 6 {
        "melbourne"@
    } else if i == 7 {
        "mexico_city"@
    } else if i == 8 {
        "montreal"@
    } else if i == 9 {
        "monza"@
    } else if i == 10 {
        "moscow_raceway"@
    } else if i == 11 {
        "norisring"@
    } else if i == 12 {
        "nuerburgring"@
    } else if i == 13 {
        "oschersleben"@
    } else if i == 14 {
        "sakhir"@
    } else if i == 15 {
        "sao_paulo"@
    } else if i == 16 {
        "sepang"@
    } else if i == 17 {
        "shanghai"@
    } else if i == 18 {
        "silverstone"@
    } else if i == 19 {
        "sochi"@
    } else if i == 20 {
        "spa"@
    } else if i == 21 {
        "spielberg"@
    } else if i == 22 {
        "yas_marina"@
    } else {
        "zandvoort"@
    }
}

/// The display name of catalog track `i`.
pub open spec fn catalog_name(i: int) -> Seq<char> {
    if i == 0 {
        "Austin"@
    } else if i == 1 {
        "Brands Hatch"@
    } else if i == 2 {
        "Budapest"@
    } else if i == 3 {
        "Catalunya"@
    } else if i == 4 {
        "Hockenheim"@
    } else if i == 5 {
        "Indianapolis"@
    } else if i == 6 {
        "Melbourne"@
    } else if i == 7 {
        "Mexico City"@
    } else if i == 8 {
        "Montreal"@
    } else if i == 9 {
        "Monza"@
    } else if i == 10 {
        "Moscow Raceway"@
    } else if i == 11 {
        "Norisring"@
    } else if i == 12 {
        "Nuerburgring"@
    } else if i == 13 {
        "Oschersleben"@
    } else if i == 14 {
        "Sakhir"@
    } else if i == 15 {
        "Sao Paulo"@
    } else if i == 16 {
        "Sepang"@
    } else if i == 17 {
        "Shanghai"@
    } else if i == 18 {
        "Silverstone"@
    } else if i == 19 {
        "Sochi"@
    } else if i == 20 {
        "Spa"@
    } else if i == 21 {
        "Spielberg"@
    } else if i == 22 {
        "Yas Marina"@
    } else {
        "Zandvoort"@
    }
}

/// The file of catalog track `i` in the racetrack database.
pub open spec fn catalog_file(i: int) -> Seq<char> {
    if i == 0 {
        "Austin.csv"@
    } else if i == 1 {
        "BrandsHatch.csv"@
    } else if i == 2 {
        "Budapest.csv"@
    } else if i == 3 {
        "Catalunya.csv"@
    } else if i == 4 {
        "Hockenheim.csv"@
    } else if i == 5 {
        "IMS.csv"@
    } else if i == 6 {
        "Melbourne.csv"@
    } else if i == 7 {
        "MexicoCity.csv"@
    } else if i == 8 {
        "Montreal.csv"@
    } else if i == 9 {
        "Monza.csv"@
    } else if i == 10 {
        "MoscowRaceway.csv"@
    } else if i == 11 {
        "Norisring.csv"@
    } else if i == 12 {
        "Nuerburgring.csv"@
    } else if i == 13 {
        "Oschersleben.csv"@
    } else if i == 14 {
        "Sakhir.csv"@
    } else if i == 15 {
        "SaoPaulo.csv"@
    } else if i == 16 {
        "Sepang.csv"@
    } else if i == 17 {
        "Shanghai.csv"@
    } else if i == 18 {
        "Silverstone.csv"@
    } else if i == 19 {
        "Sochi.csv"@
    } else if i == 20 {
        "Spa.csv"@
    } else if i == 21 {
        "Spielberg.csv"@
    } else if i == 22 {
        "YasMarina.csv"@
    } else {
        "Zandvoort.csv"@
    }
}

/// Entry `i` of the track catalog.
pub fn track_info(i: usize) -> (info: TrackInfo)
    requires
        i < TRACK_CATALOG_LEN,
    ensures
        info.id@ == catalog_id(i as int),
        info.name@ == catalog_name(i as int),
        info.file@ == catalog_file(i as int),
{
    if i == 0 {
        TrackInfo { id: "austin", name: "Austin", file: "Austin.csv" }
    } else if i == 1 {
        TrackInfo { id: "brands_hatch", name: "Brands Hatch", file: "BrandsHatch.csv" }
    } else if i == 2 {
        TrackInfo { id: "budapest", name: "Budapest", file: "Budapest.csv" }
    } else if i == 3 {
        TrackInfo { id: "catalunya", name: "Catalunya", file: "Catalunya.csv" }
    } else if i == 4 {
        TrackInfo { id: "hockenheim", name: "Hockenheim", file: "Hockenheim.csv" }
    } else if i == 5 {
        TrackInfo { id: "indianapolis", name: "Indianapolis", file: "IMS.csv" }
    } else if i == 6 {
        TrackInfo { id: "melbourne", name: "Melbourne", file: "Melbourne.csv" }
    } else if i == 7 {
        TrackInfo { id: "mexico_city", name: "Mexico City", file: "MexicoCity.csv" }
    } else if i == 8 {
        TrackInfo { id: "montreal", name: "Montreal", file: "Montreal.csv" }
    } else if i == 9 {
        TrackInfo { id: "monza", name: "Monza", file: "Monza.csv" }
    } else if i == 10 {
        TrackInfo { id: "moscow_raceway", name: "Moscow Raceway", file: "MoscowRaceway.csv" }
    } else if i == 11 {
        TrackInfo { id: "norisring", name: "Norisring", file: "Norisring.csv" }
    } else if i == 12 {
        TrackInfo { id: "nuerburgring", name: "Nuerburgring", file: "Nuerburgring.csv" }
    } else if i == 13 {
        TrackInfo { id: "oschersleben", name: "Oschersleben", file: "Oschersleben.csv" }
    } else if i == 14 {
        TrackInfo { id: "sakhir", name: "Sakhir", file: "Sakhir.csv" }
    } else if i == 15 {
        TrackInfo { id: "sao_paulo", name: "Sao Paulo", file: "SaoPaulo.csv" }
    } else if i == 16 {
        TrackInfo { id: "sepang", name: "Sepang", file: "Sepang.csv" }
    } else if i == 17 {
        TrackInfo { id: "shanghai", name: "Shanghai", file: "Shanghai.csv" }
    } else if i == 18 {
        TrackInfo { id: "silverstone", name: "Silverstone", file: "Silverstone.csv" }
    } else if i == 19 {
        TrackInfo { id: "sochi", name: "Sochi", file: "Sochi.csv" }
    } else if i == 20 {
        TrackInfo { id: "spa", name: "Spa", file: "Spa.csv" }
    } else if i == 21 {
        TrackInfo { id: "spielberg", name: "Spielberg", file: "Spielberg.csv" }
    } else if i == 22 {
        TrackInfo { id: "yas_marina", name: "Yas Marina", file: "YasMarina.csv" }
    } else {
        TrackInfo { id: "zandvoort", name: "Zandvoort", file: "Zandvoort.csv" }
    }
}

/// The display name of preset track `i`.
pub open spec fn preset_name(i: int) -> Seq<char> {
    if i == 0 {
        "Test Track (large)"@
    } else {
        "Test Track (small)"@
    }
}

/// Display name of preset track `i`.
pub fn track_preset_name(i: usize) -> (name: &'static str)
    requires
        i < TRACK_PRESETS_LEN,
    ensures
        name@ == preset_name(i as int),
{
    if i == 0 {
        "Test Track (large)"
    } else {
        "Test Track (small)"
    }
}

/// Every track of the catalog, in catalog order.
pub fn track_catalog() -> (tracks: Vec<TrackInfo>)
    ensures
        tracks@.len() == TRACK_CATALOG_LEN,
        forall|i: int|
            0 <= i < TRACK_CATALOG_LEN ==> {
                &&& (#[trigger] tracks@[i]).id@ == catalog_id(i)
                &&& tracks@[i].name@ == catalog_name(i)
                &&& tracks@[i].file@ == catalog_file(i)
            },
{
    let mut tracks: Vec<TrackInfo> = Vec::new();
    let mut i: usize = 0;
    while i < TRACK_CATALOG_LEN
        invariant
            i <= TRACK_CATALOG_LEN,
            tracks@.len() == i,
            forall|j: int|
                0 <= j < i ==> {
                    &&& (#[trigger] tracks@[j]).id@ == catalog_id(j)
                    &&& tracks@[j].name@ == catalog_name(j)
                    &&& tracks@[j].file@ == catalog_file(j)
                },
        decreases TRACK_CATALOG_LEN - i,
    {
        tracks.push(track_info(i));
        i = i + 1;
    }
    tracks
}

/// The ids of the downloaded catalog tracks, in catalog order.
pub fn downloaded_track_ids() -> (ids: Vec<&'static str>)
    ensures
        ids@.len() == TRACK_CATALOG_LEN,
        forall|i: int| 0 <= i < TRACK_CATALOG_LEN ==> (#[trigger] ids@[i])@ == catalog_id(i),
{
    let mut ids: Vec<&'static str> = Vec::new();
    let mut i: usize = 0;
    while i < TRACK_CATALOG_LEN
        invariant
            i <= TRACK_CATALOG_LEN,
            ids@.len() == i,
            forall|j: int| 0 <= j < i ==> (#[trigger] ids@[j])@ == catalog_id(j),
        decreases TRACK_CATALOG_LEN - i,
    {
        ids.push(track_info(i).id);
        i = i + 1;
    }
    ids
}

/// `s` with every `_` replaced by `-`.
pub open spec fn hyphenate(s: Seq<char>) -> Seq<char> {
    s.map_values(|c: char| if c == '_' { '-' } else { c })
}

/// The first catalog track, from `from` on, whose hyphenated id is `n`.
pub open spec fn first_catalog_match(n: Seq<char>, from: int) -> Option<int>
    decreases TRACK_CATALOG_LEN - from,
{
    if from >= TRACK_CATALOG_LEN {
        None
    } else if hyphenate(catalog_id(from)) == n {
        Some(from)
    } else {
        first_catalog_match(n, from + 1)
    }
}

/// Whether the normalized name `n` names a preset or the generated track,
/// which need no downloaded catalog.
pub open spec fn is_builtin_track_name(n: Seq<char>) -> bool {
    n == "generated"@ || n == "large"@ || n == "test-track-large"@ || n == "small"@ || n
        == "test-track-small"@
}

/// Rust's `Debug` rendering of a string: quoted, with special characters
/// escaped.
pub uninterp spec fn debug_quoted(s: Seq<char>) -> Seq<char>;

/// `<str as Debug>::fmt` from std, through `format!("{s:?}")`.
#[verifier::external_body]
fn debug_quote(s: &str) -> (quoted: String)
    ensures
        quoted@ == debug_quoted(s@),
{
    format!("{s:?}")
}

/// The result of selecting the track named `name` for profiling, given the
/// outcome `catalog` of making the downloaded catalog available.
pub open spec fn track_selection(name: Seq<char>, catalog: Result<(), Seq<char>>) -> Result<
    (int, Seq<char>),
    Seq<char>,
> {
    let n = normalize(name);
    if n == "generated"@ {
        Err("generated track is not available for profiling"@)
    } else if n == "large"@ || n == "test-track-large"@ {
        Ok((1, preset_name(0)))
    } else if n == "small"@ || n == "test-track-small"@ {
        Ok((2, preset_name(1)))
    } else {
        match catalog {
            Err(e) => Err(e),
            Ok(_) => match first_catalog_match(n, 0) {
                Some(i) => Ok((TRACK_PRESETS_LEN + i + 1, catalog_name(i))),
                None => Err("unknown track "@ + debug_quoted(name)),
            },
        }
    }
}

/// Whether selecting the track `name` needs the downloaded catalog, that is
/// whether it names neither a preset nor the generated track.
pub fn track_needs_catalog(name: &str) -> (needs: bool)
    ensures
        needs == !is_builtin_track_name(normalize(name@)),
{
    let n = normalized(name);
    !(chars_equal_str(&n, "generated") || chars_equal_str(&n, "large") || chars_equal_str(
        &n,
        "test-track-large",
    ) || chars_equal_str(&n, "small") || chars_equal_str(&n, "test-track-small"))
}

/// Whether the hyphenated form of `id` is `n`.
fn hyphenated_equal(id: &str, n: &Vec<char>) -> (eq: bool)
    ensures
        eq == (hyphenate(id@) == n@),
{
    let chars = chars_of(id);
    if chars.len() != n.len() {
        assert(hyphenate(id@).len() != n@.len());
        return false;
    }
    let mut i: usize = 0;
    while i < chars.len()
        invariant
            chars@ == id@,
            i <= chars.len() == n.len(),
            hyphenate(id@).take(i as int) == n@.take(i as int),
        decreases chars.len() - i,
    {
        let c = if chars[i] == '_' {
            '-'
        } else {
            chars[i]
        };
        if c != n[i] {
            assert(hyphenate(id@)[i as int] != n@[i as int]);
            return false;
        }
        i = i + 1;
        assert(hyphenate(id@).take(i as int) =~= n@.take(i as int));
    }
    assert(hyphenate(id@) =~= hyphenate(id@).take(i as int));
    assert(n@ =~= n@.take(i as int));
    true
}

/// Catalog index and display name of the track that `name` selects, compared
/// after ASCII lower-casing and mapping `_` and space to `-`. Presets are
/// numbered from 1, the downloaded tracks follow them. `catalog` is the
/// outcome of making the downloaded catalog available; it is consulted only
/// for names that are not built in (see [`track_needs_catalog`]).
pub fn track_index(name: &str, catalog: Result<(), String>) -> (selected: Result<
    (usize, String),
    String,
>)
    ensures
        track_selection(
            name@,
            match catalog {
                Ok(_) => Ok(()),
                Err(e) => Err(e@),
            },
        ) == match selected {
            Ok((index, track_name)) => Ok((index as int, track_name@)),
            Err(e) => Err(e@),
        },
{
    let n = normalized(name);
    if chars_equal_str(&n, "generated") {
        let mut message = String::new();
        append_str(&mut message, "generated track is not available for profiling");
        return Err(message);
    }
    if chars_equal_str(&n, "large") || chars_equal_str(&n, "test-track-large") {
        let mut preset = String::new();
        append_str(&mut preset, track_preset_name(0));
        return Ok((1, preset));
    }
    if chars_equal_str(&n, "small") || chars_equal_str(&n, "test-track-small") {
        let mut preset = String::new();
        append_str(&mut preset, track_preset_name(1));
        return Ok((2, preset));
    }
    match catalog {
        Err(e) => Err(e),
        Ok(()) => {
            let mut i: usize = 0;
            while i < TRACK_CATALOG_LEN
                invariant
                    i <= TRACK_CATALOG_LEN,
                    n@ == normalize(name@),
                    !is_builtin_track_name(n@),
                    catalog is Ok,
                    first_catalog_match(n@, 0) == first_catalog_match(n@, i as int),
                decreases TRACK_CATALOG_LEN - i,
            {
                let info = track_info(i);
                if hyphenated_equal(info.id, &n) {
                    let mut track_name = String::new();
                    append_str(&mut track_name, info.name);
                    assert(first_catalog_match(n@, i as int) == Some(i as int));
                    assert(track_name@ =~= catalog_name(i as int));
                    return Ok((TRACK_PRESETS_LEN + i + 1, track_name));
                }
                i = i + 1;
            }
            let mut message = String::new();
            append_str(&mut message, "unknown track ");
            let quoted = debug_quote(name);
            append_str(&mut message, quoted.as_str());
            Err(message)
        },
    }
}

/// A catalog id: lower-case ASCII letters joined by `_`.
pub open spec fn is_track_id(s: Seq<char>) -> bool {
    forall|k: int| 0 <= k < s.len() ==> ('a' <= #[trigger] s[k] <= 'z' || s[k] == '_')
}

/// The catalog ids are well formed and pairwise distinct.
pub proof fn lemma_catalog_ids_valid()
    ensures
        forall|i: int| 0 <= i < TRACK_CATALOG_LEN ==> is_track_id(#[trigger] catalog_id(i)),
        forall|i: int, j: int|
            0 <= i < j < TRACK_CATALOG_LEN ==> #[trigger] catalog_id(i) != #[trigger] catalog_id(
                j,
            ),
{
    reveal_strlit("austin");
    reveal_strlit("brands_hatch");
    reveal_strlit("budapest");
    reveal_strlit("catalunya");
    reveal_strlit("hockenheim");
    reveal_strlit("indianapolis");
    reveal_strlit("melbourne");
    reveal_strlit("mexico_city");
    reveal_strlit("montreal");
    reveal_strlit("monza");
    reveal_strlit("moscow_raceway");
    reveal_strlit("norisring");
    reveal_strlit("nuerburgring");
    reveal_strlit("oschersleben");
    reveal_strlit("sakhir");
    reveal_strlit("sao_paulo");
    reveal_strlit("sepang");
    reveal_strlit("shanghai");
    reveal_strlit("silverstone");
    reveal_strlit("sochi");
    reveal_strlit("spa");
    reveal_strlit("spielberg");
    reveal_strlit("yas_marina");
    reveal_strlit("zandvoort");
    assert forall|i: int| 0 <= i < TRACK_CATALOG_LEN implies is_track_id(#[trigger] catalog_id(i)) by {
        let s = catalog_id(i);
        assert forall|k: int| 0 <= k < s.len() implies ('a' <= #[trigger] s[k] <= 'z' || s[k]
            == '_') by {}
    }
    assert forall|i: int, j: int| 0 <= i < j < TRACK_CATALOG_LEN implies #[trigger] catalog_id(i)
        != #[trigger] catalog_id(j) by {
        if catalog_id(i).len() == catalog_id(j).len() {
            assert(catalog_id(i)[0] != catalog_id(j)[0] || catalog_id(i)[1] != catalog_id(j)[1]
                || catalog_id(i)[2] != catalog_id(j)[2]);
        }
    }
}

/// For a catalog id, normalizing and hyphenating agree.
proof fn lemma_id_normalizes_to_hyphenated(s: Seq<char>)
    requires
        is_track_id(s),
    ensures
        normalize(s) == hyphenate(s),
{
    assert(normalize(s) =~= hyphenate(s));
}

/// Hyphenating an id is one to one on catalog ids.
proof fn lemma_hyphenate_injective(a: Seq<char>, b: Seq<char>)
    requires
        is_track_id(a),
        is_track_id(b),
        hyphenate(a) == hyphenate(b),
    ensures
        a == b,
{
    assert(a.len() == hyphenate(a).len());
    assert(b.len() == hyphenate(b).len());
    assert forall|k: int| 0 <= k < a.len() implies a[k] == b[k] by {
        assert(hyphenate(a)[k] == hyphenate(b)[k]);
        assert(hyphenate(a)[k] == (if a[k] == '_' { '-' } else { a[k] }));
        assert(hyphenate(b)[k] == (if b[k] == '_' { '-' } else { b[k] }));
        assert('a' <= a[k] <= 'z' || a[k] == '_');
        assert('a' <= b[k] <= 'z' || b[k] == '_');
    }
    assert(a =~= b);
}

/// Searching from `j` finds track `i` when track `i` matches and no track
/// between does.
proof fn lemma_first_catalog_match_from(n: Seq<char>, j: int, i: int)
    requires
        0 <= j <= i < TRACK_CATALOG_LEN,
        hyphenate(catalog_id(i)) == n,
        forall|m: int| j <= m < i ==> hyphenate(catalog_id(m)) != n,
    ensures
        first_catalog_match(n, j) == Some(i),
    decreases i - j,
{
    if j < i {
        lemma_first_catalog_match_from(n, j + 1, i);
    }
}

/// Lengths and letters that tell catalog ids apart from the built-in names.
proof fn lemma_catalog_id_shape(i: int)
    requires
        0 <= i < TRACK_CATALOG_LEN,
    ensures
        catalog_id(i).len() != 16,
        catalog_id(i).len() == 5 ==> catalog_id(i)[1] == 'o',
        catalog_id(i).len() == 9 ==> catalog_id(i)[0] != 'g',
{
    reveal_strlit("austin");
    reveal_strlit("brands_hatch");
    reveal_strlit("budapest");
    reveal_strlit("catalunya");
    reveal_strlit("hockenheim");
    reveal_strlit("indianapolis");
    reveal_strlit("melbourne");
    reveal_strlit("mexico_city");
    reveal_strlit("montreal");
    reveal_strlit("monza");
    reveal_strlit("moscow_raceway");
    reveal_strlit("norisring");
    reveal_strlit("nuerburgring");
    reveal_strlit("oschersleben");
    reveal_strlit("sakhir");
    reveal_strlit("sao_paulo");
    reveal_strlit("sepang");
    reveal_strlit("shanghai");
    reveal_strlit("silverstone");
    reveal_strlit("sochi");
    reveal_strlit("spa");
    reveal_strlit("spielberg");
    reveal_strlit("yas_marina");
    reveal_strlit("zandvoort");
}

/// Every downloaded track is selected by its own id, given the catalog; the
/// two presets take indices 1 and 2, so catalog track `i` has index `i + 3`.
pub proof fn lemma_id_selects_track(i: int)
    requires
        0 <= i < TRACK_CATALOG_LEN,
    ensures
        track_selection(catalog_id(i), Ok(())) == Ok::<(int, Seq<char>), Seq<char>>(
            (i + 3, catalog_name(i)),
        ),
{
    lemma_catalog_ids_valid();
    let id = catalog_id(i);
    lemma_id_normalizes_to_hyphenated(id);
    let n = normalize(id);
    assert forall|m: int| 0 <= m < i implies hyphenate(catalog_id(m)) != n by {
        if hyphenate(catalog_id(m)) == n {
            lemma_hyphenate_injective(catalog_id(m), id);
        }
    }
    lemma_first_catalog_match_from(n, 0, i);
    reveal_strlit("generated");
    reveal_strlit("large");
    reveal_strlit("test-track-large");
    reveal_strlit("small");
    reveal_strlit("test-track-small");
    lemma_catalog_id_shape(i);
    assert(!is_builtin_track_name(n)) by {
        assert(n.len() == id.len());
        if id.len() == 5 {
            assert(hyphenate(id)[1] == (if id[1] == '_' { '-' } else { id[1] }));
            assert(n[1] == id[1]);
            assert(n != "large"@ && n != "small"@);
        }
        if id.len() == 9 {
            assert(id[0] != 'g');
            assert(hyphenate(id)[0] == (if id[0] == '_' { '-' } else { id[0] }));
            assert(n[0] != 'g');
        }
    }
}

/// `s` with its spaces removed.
pub open spec fn without_spaces(s: Seq<char>) -> Seq<char>
    decreases s.len(),
{
    if s.len() == 0 {
        s
    } else if s[0] == ' ' {
        without_spaces(s.drop_first())
    } else {
        seq![s[0]] + without_spaces(s.drop_first())
    }
}

/// A text without spaces keeps all its characters.
proof fn lemma_without_spaces_none(s: Seq<char>)
    requires
        forall|k: int| 0 <= k < s.len() ==> s[k] != ' ',
    ensures
        without_spaces(s) == s,
    decreases s.len(),
{
    if s.len() > 0 {
        lemma_without_spaces_none(s.drop_first());
        assert(seq![s[0]] + s.drop_first() =~= s);
    }
}

/// Removing the spaces of two words joined by one space joins the words.
proof fn lemma_without_spaces_one(a: Seq<char>, b: Seq<char>)
    requires
        forall|k: int| 0 <= k < a.len() ==> a[k] != ' ',
        forall|k: int| 0 <= k < b.len() ==> b[k] != ' ',
    ensures
        without_spaces(a + seq![' '] + b) == a + b,
    decreases a.len(),
{
    if a.len() == 0 {
        assert(a + seq![' '] + b =~= seq![' '] + b);
        assert((seq![' '] + b).drop_first() =~= b);
        lemma_without_spaces_none(b);
        assert(a + b =~= b);
    } else {
        lemma_without_spaces_one(a.drop_first(), b);
        assert((a + seq![' '] + b).drop_first() =~= a.drop_first() + seq![' '] + b);
        assert(seq![a[0]] + (a.drop_first() + b) =~= a + b);
    }
}

/// Catalog tracks 0 to 5: see [`lemma_catalog_rows`].
#[verifier::rlimit(50)]
proof fn lemma_catalog_rows_a(i: int)
    requires
        0 <= i < 6,
    ensures
        normalize(catalog_name(i)) == hyphenate(catalog_id(i)),
        i != 5 ==> catalog_file(i) == without_spaces(catalog_name(i)) + ".csv"@,
        i == 5 ==> catalog_name(i) == "Indianapolis"@ && catalog_file(i) == "IMS.csv"@,
{
    reveal_strlit(".csv");
    if i == 0 {
        reveal_strlit("austin");
        reveal_strlit("Austin");
        reveal_strlit("Austin.csv");
        assert(normalize("Austin"@) =~= hyphenate("austin"@));
        reveal_strlit("Austin");
        lemma_without_spaces_none("Austin"@);
        assert("Austin.csv"@ =~= "Austin"@ + ".csv"@);
    } else if i == 1 {
        reveal_strlit("brands_hatch");
        reveal_strlit("Brands Hatch");
        reveal_strlit("BrandsHatch.csv");
        assert(normalize("Brands Hatch"@) =~= hyphenate("brands_hatch"@));
        reveal_strlit("Brands");
        reveal_strlit("Hatch");
        reveal_strlit(" ");
        assert(" "@ =~= seq![' ']);
        assert("Brands Hatch"@ =~= "Brands"@ + " "@ + "Hatch"@);
        lemma_without_spaces_one("Brands"@, "Hatch"@);
        assert("BrandsHatch.csv"@ =~= "Brands"@ + "Hatch"@ + ".csv"@);
    } else if i == 2 {
        reveal_strlit("budapest");
        reveal_strlit("Budapest");
        reveal_strlit("Budapest.csv");
        assert(normalize("Budapest"@) =~= hyphenate("budapest"@));
        reveal_strlit("Budapest");
        lemma_without_spaces_none("Budapest"@);
        assert("Budapest.csv"@ =~= "Budapest"@ + ".csv"@);
    } else if i == 3 {
        reveal_strlit("catalunya");
        reveal_strlit("Catalunya");
        reveal_strlit("Catalunya.csv");
        assert(normalize("Catalunya"@) =~= hyphenate("catalunya"@));
        reveal_strlit("Catalunya");
        lemma_without_spaces_none("Catalunya"@);
        assert("Catalunya.csv"@ =~= "Catalunya"@ + ".csv"@);
    } else if i == 4 {
        reveal_strlit("hockenheim");
        reveal_strlit("Hockenheim");
        reveal_strlit("Hockenheim.csv");
        assert(normalize("Hockenheim"@) =~= hyphenate("hockenheim"@));
        reveal_strlit("Hockenheim");
        lemma_without_spaces_none("Hockenheim"@);
        assert("Hockenheim.csv"@ =~= "Hockenheim"@ + ".csv"@);
    } else if i == 5 {
        reveal_strlit("indianapolis");
        reveal_strlit("Indianapolis");
        reveal_strlit("IMS.csv");
        assert(normalize("Indianapolis"@) =~= hyphenate("indianapolis"@));
    }
}

/// Catalog tracks 6 to 11: see [`lemma_catalog_rows`].
#[verifier::rlimit(50)]
proof fn lemma_catalog_rows_b(i: int)
    requires
        6 <= i < 12,
    ensures
        normalize(catalog_name(i)) == hyphenate(catalog_id(i)),
        i != 5 ==> catalog_file(i) == without_spaces(catalog_name(i)) + ".csv"@,
        i == 5 ==> catalog_name(i) == "Indianapolis"@ && catalog_file(i) == "IMS.csv"@,
{
    reveal_strlit(".csv");
    if i == 6 {
        reveal_strlit("melbourne");
        reveal_strlit("Melbourne");
        reveal_strlit("Melbourne.csv");
        assert(normalize("Melbourne"@) =~= hyphenate("melbourne"@));
        reveal_strlit("Melbourne");
        lemma_without_spaces_none("Melbourne"@);
        assert("Melbourne.csv"@ =~= "Melbourne"@ + ".csv"@);
    } else if i == 7 {
        reveal_strlit("mexico_city");
        reveal_strlit("Mexico City");
        reveal_strlit("MexicoCity.csv");
        assert(normalize("Mexico City"@) =~= hyphenate("mexico_city"@));
        reveal_strlit("Mexico");
        reveal_strlit("City");
        reveal_strlit(" ");
        assert(" "@ =~= seq![' ']);
        assert("Mexico City"@ =~= "Mexico"@ + " "@ + "City"@);
        lemma_without_spaces_one("Mexico"@, "City"@);
        assert("MexicoCity.csv"@ =~= "Mexico"@ + "City"@ + ".csv"@);
    } else if i == 8 {
        reveal_strlit("montreal");
        reveal_strlit("Montreal");
        reveal_strlit("Montreal.csv");
        assert(normalize("Montreal"@) =~= hyphenate("montreal"@));
        reveal_strlit("Montreal");
        lemma_without_spaces_none("Montreal"@);
        assert("Montreal.csv"@ =~= "Montreal"@ + ".csv"@);
    } else if i == 9 {
        reveal_strlit("monza");
        reveal_strlit("Monza");
        reveal_strlit("Monza.csv");
        assert(normalize("Monza"@) =~= hyphenate("monza"@));
        reveal_strlit("Monza");
        lemma_without_spaces_none("Monza"@);
        assert("Monza.csv"@ =~= "Monza"@ + ".csv"@);
    } else if i == 10 {
        reveal_strlit("moscow_raceway");
        reveal_strlit("Moscow Raceway");
        reveal_strlit("MoscowRaceway.csv");
        assert(normalize("Moscow Raceway"@) =~= hyphenate("moscow_raceway"@));
        reveal_strlit("Moscow");
        reveal_strlit("Raceway");
        reveal_strlit(" ");
        assert(" "@ =~= seq![' ']);
        assert("Moscow Raceway"@ =~= "Moscow"@ + " "@ + "Raceway"@);
        lemma_without_spaces_one("Moscow"@, "Raceway"@);
        assert("MoscowRaceway.csv"@ =~= "Moscow"@ + "Raceway"@ + ".csv"@);
    } else if i == 11 {
        reveal_strlit("norisring");
        reveal_strlit("Norisring");
        reveal_strlit("Norisring.csv");
        assert(normalize("Norisring"@) =~= hyphenate("norisring"@));
        reveal_strlit("Norisring");
        lemma_without_spaces_none("Norisring"@);
        assert("Norisring.csv"@ =~= "Norisring"@ + ".csv"@);
    }
}

/// Catalog tracks 12 to 17: see [`lemma_catalog_rows`].
#[verifier::rlimit(50)]
proof fn lemma_catalog_rows_c(i: int)
    requires
        12 <= i < 18,
    ensures
        normalize(catalog_name(i)) == hyphenate(catalog_id(i)),
        i != 5 ==> catalog_file(i) == without_spaces(catalog_name(i)) + ".csv"@,
        i == 5 ==> catalog_name(i) == "Indianapolis"@ && catalog_file(i) == "IMS.csv"@,
{
    reveal_strlit(".csv");
    if i == 12 {
        reveal_strlit("nuerburgring");
        reveal_strlit("Nuerburgring");
        reveal_strlit("Nuerburgring.csv");
        assert(normalize("Nuerburgring"@) =~= hyphenate("nuerburgring"@));
        reveal_strlit("Nuerburgring");
        lemma_without_spaces_none("Nuerburgring"@);
        assert("Nuerburgring.csv"@ =~= "Nuerburgring"@ + ".csv"@);
    } else if i == 13 {
        reveal_strlit("oschersleben");
        reveal_strlit("Oschersleben");
        reveal_strlit("Oschersleben.csv");
        assert(normalize("Oschersleben"@) =~= hyphenate("oschersleben"@));
        reveal_strlit("Oschersleben");
        lemma_without_spaces_none("Oschersleben"@);
        assert("Oschersleben.csv"@ =~= "Oschersleben"@ + ".csv"@);
    } else if i == 14 {
        reveal_strlit("sakhir");
        reveal_strlit("Sakhir");
        reveal_strlit("Sakhir.csv");
        assert(normalize("Sakhir"@) =~= hyphenate("sakhir"@));
        reveal_strlit("Sakhir");
        lemma_without_spaces_none("Sakhir"@);
        assert("Sakhir.csv"@ =~= "Sakhir"@ + ".csv"@);
    } else if i == 15 {
        reveal_strlit("sao_paulo");
        reveal_strlit("Sao Paulo");
        reveal_strlit("SaoPaulo.csv");
        assert(normalize("Sao Paulo"@) =~= hyphenate("sao_paulo"@));
        reveal_strlit("Sao");
        reveal_strlit("Paulo");
        reveal_strlit(" ");
        assert(" "@ =~= seq![' ']);
        assert("Sao Paulo"@ =~= "Sao"@ + " "@ + "Paulo"@);
        lemma_without_spaces_one("Sao"@, "Paulo"@);
        assert("SaoPaulo.csv"@ =~= "Sao"@ + "Paulo"@ + ".csv"@);
    } else if i == 16 {
        reveal_strlit("sepang");
        reveal_strlit("Sepang");
        reveal_strlit("Sepang.csv");
        assert(normalize("Sepang"@) =~= hyphenate("sepang"@));
        reveal_strlit("Sepang");
        lemma_without_spaces_none("Sepang"@);
        assert("Sepang.csv"@ =~= "Sepang"@ + ".csv"@);
    } else if i == 17 {
        reveal_strlit("shanghai");
        reveal_strlit("Shanghai");
        reveal_strlit("Shanghai.csv");
        assert(normalize("Shanghai"@) =~= hyphenate("shanghai"@));
        reveal_strlit("Shanghai");
        lemma_without_spaces_none("Shanghai"@);
        assert("Shanghai.csv"@ =~= "Shanghai"@ + ".csv"@);
    }
}

/// Catalog tracks 18 to 23: see [`lemma_catalog_rows`].
#[verifier::rlimit(50)]
proof fn lemma_catalog_rows_d(i: int)
    requires
        18 <= i < 24,
    ensures
        normalize(catalog_name(i)) == hyphenate(catalog_id(i)),
        i != 5 ==> catalog_file(i) == without_spaces(catalog_name(i)) + ".csv"@,
        i == 5 ==> catalog_name(i) == "Indianapolis"@ && catalog_file(i) == "IMS.csv"@,
{
    reveal_strlit(".csv");
    if i == 18 {
        reveal_strlit("silverstone");
        reveal_strlit("Silverstone");
        reveal_strlit("Silverstone.csv");
        assert(normalize("Silverstone"@) =~= hyphenate("silverstone"@));
        reveal_strlit("Silverstone");
        lemma_without_spaces_none("Silverstone"@);
        assert("Silverstone.csv"@ =~= "Silverstone"@ + ".csv"@);
    } else if i == 19 {
        reveal_strlit("sochi");
        reveal_strlit("Sochi");
        reveal_strlit("Sochi.csv");
        assert(normalize("Sochi"@) =~= hyphenate("sochi"@));
        reveal_strlit("Sochi");
        lemma_without_spaces_none("Sochi"@);
        assert("Sochi.csv"@ =~= "Sochi"@ + ".csv"@);
    } else if i == 20 {
        reveal_strlit("spa");
        reveal_strlit("Spa");
        reveal_strlit("Spa.csv");
        assert(normalize("Spa"@) =~= hyphenate("spa"@));
        reveal_strlit("Spa");
        lemma_without_spaces_none("Spa"@);
        assert("Spa.csv"@ =~= "Spa"@ + ".csv"@);
    } else if i == 21 {
        reveal_strlit("spielberg");
        reveal_strlit("Spielberg");
        reveal_strlit("Spielberg.csv");
        assert(normalize("Spielberg"@) =~= hyphenate("spielberg"@));
        reveal_strlit("Spielberg");
        lemma_without_spaces_none("Spielberg"@);
        assert("Spielberg.csv"@ =~= "Spielberg"@ + ".csv"@);
    } else if i == 22 {
        reveal_strlit("yas_marina");
        reveal_strlit("Yas Marina");
        reveal_strlit("YasMarina.csv");
        assert(normalize("Yas Marina"@) =~= hyphenate("yas_marina"@));
        reveal_strlit("Yas");
        reveal_strlit("Marina");
        reveal_strlit(" ");
        assert(" "@ =~= seq![' ']);
        assert("Yas Marina"@ =~= "Yas"@ + " "@ + "Marina"@);
        lemma_without_spaces_one("Yas"@, "Marina"@);
        assert("YasMarina.csv"@ =~= "Yas"@ + "Marina"@ + ".csv"@);
    } else if i == 23 {
        reveal_strlit("zandvoort");
        reveal_strlit("Zandvoort");
        reveal_strlit("Zandvoort.csv");
        assert(normalize("Zandvoort"@) =~= hyphenate("zandvoort"@));
        reveal_strlit("Zandvoort");
        lemma_without_spaces_none("Zandvoort"@);
        assert("Zandvoort.csv"@ =~= "Zandvoort"@ + ".csv"@);
    }
}

/// How a catalog track's id and database file derive from its display name:
/// the id is the name in lower case with `_` between words, and the file is
/// the name without spaces and with a `.csv` extension; Indianapolis's file
/// is `IMS.csv`.
pub proof fn lemma_catalog_rows(i: int)
    requires
        0 <= i < TRACK_CATALOG_LEN,
    ensures
        normalize(catalog_name(i)) == hyphenate(catalog_id(i)),
        i != 5 ==> catalog_file(i) == without_spaces(catalog_name(i)) + ".csv"@,
        i == 5 ==> catalog_name(i) == "Indianapolis"@ && catalog_file(i) == "IMS.csv"@,
{
    if i < 6 {
        lemma_catalog_rows_a(i);
    } else if i < 12 {
        lemma_catalog_rows_b(i);
    } else if i < 18 {
        lemma_catalog_rows_c(i);
    } else {
        lemma_catalog_rows_d(i);
    }
}

/// The built-in names select their tracks whatever the catalog outcome:
/// `large` and `test-track-large` the large preset (index 1), `small` and
/// `test-track-small` the small preset (index 2); `generated` is refused.
/// Case and word separators of the name do not matter.
pub proof fn lemma_builtin_names(name: Seq<char>, catalog: Result<(), Seq<char>>)
    ensures
        normalize(name) == "large"@ || normalize(name) == "test-track-large"@ ==> track_selection(
            name,
            catalog,
        ) == Ok::<(int, Seq<char>), Seq<char>>((1, "Test Track (large)"@)),
        normalize(name) == "small"@ || normalize(name) == "test-track-small"@ ==> track_selection(
            name,
            catalog,
        ) == Ok::<(int, Seq<char>), Seq<char>>((2, "Test Track (small)"@)),
        normalize(name) == "generated"@ ==> track_selection(name, catalog) == Err::<
            (int, Seq<char>),
            Seq<char>,
        >("generated track is not available for profiling"@),
        is_builtin_track_name(normalize(name)) ==> track_selection(name, catalog) == track_selection(
            name,
            Ok(()),
        ),
{
    reveal_strlit("generated");
    reveal_strlit("large");
    reveal_strlit("test-track-large");
    reveal_strlit("small");
    reveal_strlit("test-track-small");
    let n = normalize(name);
    assert("generated"@.len() == 9 && "large"@.len() == 5 && "small"@.len() == 5
        && "test-track-large"@.len() == 16 && "test-track-small"@.len() == 16);
    assert("large"@[0] == 'l' && "small"@[0] == 's');
    assert("test-track-large"@[11] == 'l' && "test-track-small"@[11] == 's');
}

/// Names that differ only in ASCII case or in their word separators select
/// the same track; a name that is not selected is refused either way.
pub proof fn lemma_track_name_case_insensitive(
    s: Seq<char>,
    t: Seq<char>,
    catalog: Result<(), Seq<char>>,
)
    requires
        equivalent_names(s, t),
    ensures
        track_selection(s, catalog) is Ok <==> track_selection(t, catalog) is Ok,
        track_selection(s, catalog) is Ok ==> track_selection(s, catalog) == track_selection(
            t,
            catalog,
        ),
{
    lemma_normalize_equivalent(s, t);
}

/// Every downloaded track is also selected by its display name, given the
/// catalog.
pub proof fn lemma_display_name_selects_track(i: int)
    requires
        0 <= i < TRACK_CATALOG_LEN,
    ensures
        track_selection(catalog_name(i), Ok(())) == Ok::<(int, Seq<char>), Seq<char>>(
            (i + 3, catalog_name(i)),
        ),
{
    lemma_catalog_rows(i);
    lemma_id_selects_track(i);
    lemma_catalog_ids_valid();
    lemma_id_normalizes_to_hyphenated(catalog_id(i));
}

/// `a` comes strictly before `b` in dictionary order of characters.
pub open spec fn precedes(a: Seq<char>, b: Seq<char>) -> bool
    decreases a.len(),
{
    if a.len() == 0 {
        b.len() > 0
    } else if b.len() == 0 {
        false
    } else if a[0] != b[0] {
        a[0] < b[0]
    } else {
        precedes(a.drop_first(), b.drop_first())
    }
}

/// The catalog lists its tracks in strictly increasing dictionary order of
/// their ids.
pub proof fn lemma_catalog_sorted(i: int)
    requires
        0 <= i < TRACK_CATALOG_LEN - 1,
    ensures
        precedes(catalog_id(i), catalog_id(i + 1)),
{
    reveal_strlit("austin");
    reveal_strlit("brands_hatch");
    reveal_strlit("budapest");
    reveal_strlit("catalunya");
    reveal_strlit("hockenheim");
    reveal_strlit("indianapolis");
    reveal_strlit("melbourne");
    reveal_strlit("mexico_city");
    reveal_strlit("montreal");
    reveal_strlit("monza");
    reveal_strlit("moscow_raceway");
    reveal_strlit("norisring");
    reveal_strlit("nuerburgring");
    reveal_strlit("oschersleben");
    reveal_strlit("sakhir");
    reveal_strlit("sao_paulo");
    reveal_strlit("sepang");
    reveal_strlit("shanghai");
    reveal_strlit("silverstone");
    reveal_strlit("sochi");
    reveal_strlit("spa");
    reveal_strlit("spielberg");
    reveal_strlit("yas_marina");
    reveal_strlit("zandvoort");
    reveal_with_fuel(precedes, 5);
}

} // verus!
