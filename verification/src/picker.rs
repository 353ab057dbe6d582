//! The show picker: choosing which provider search hit a query meant,
//! from Kitsu's episode count, premiere year and subtype.
//!
//! The provider calls (search, detail year, episode listing) stay with
//! the caller; this module holds every decision made from their
//! answers: the format disproof over badges, the year filter, the
//! count-distance threshold, the airing-part rescue, the winner among
//! equally distant candidates, and the preference order of a pick
//! without a count.

use vstd::prelude::*;
use crate::error::{AniError, is_provider_block_spec};
use crate::numbering::EpisodeRef;
use crate::text::{
    ascii_lower_seq, eq_ignore_ascii_case, str_eq, to_lowercase, to_owned_string, trim, trim_spec,
    unicode_lowercase,
};

verus! {

/// How many browse hits get an episodes probe.
pub const MAX_PROBED_CANDIDATES: usize = 5;

/// One browse hit: the provider slug, display title and format badge.
#[derive(Debug, Clone, PartialEq, Eq)]
pub struct BrowseHit {
    /// Provider slug.
    pub slug: String,
    /// Display title.
    pub title: String,
    /// The card's format badge (`TV`, `Movie`, `OVA`, ...), when shown.
    pub kind: Option<String>,
}

/// An owned copy of a hit.
pub fn clone_hit(h: &BrowseHit) -> (r: BrowseHit)
    ensures
        r == *h,
{
    BrowseHit {
        slug: h.slug.clone(),
        title: h.title.clone(),
        kind: match &h.kind {
            Some(k) => Some(k.clone()),
            None => None,
        },
    }
}

/// Distance tolerance: long-running shows get proportional slack, short
/// shows a floor of 3.
pub open spec fn threshold_spec(expected: u32) -> u32 {
    if expected / 10 >= 3 {
        expected / 10
    } else {
        3
    }
}

/// The episode-count distance a best candidate may sit from Kitsu's
/// count.
pub fn ep_count_threshold(expected: u32) -> (t: u32)
    ensures
        t == threshold_spec(expected),
{
    let slack = expected / 10;
    if slack >= 3 {
        slack
    } else {
        3
    }
}

// ---------------------------------------------------------------------
// Format disproof
// ---------------------------------------------------------------------

/// A format category, unifying Kitsu subtypes and provider badges.
#[derive(Debug, Clone, Copy, PartialEq, Eq, Structural)]
pub enum FormatCategory {
    /// A film.
    Movie,
    /// A TV series.
    Tv,
    /// An OVA.
    Ova,
    /// A special.
    Special,
    /// An ONA (the provider badges it Web).
    Ona,
}

/// The category a format tag names, ASCII case-insensitively; `None`
/// for tags neither side is known to emit.
pub open spec fn format_category_spec(tag: Seq<char>) -> Option<FormatCategory> {
    let l = ascii_lower_seq(tag);
    if l == "movie"@ {
        Some(FormatCategory::Movie)
    } else if l == "tv"@ {
        Some(FormatCategory::Tv)
    } else if l == "ova"@ {
        Some(FormatCategory::Ova)
    } else if l == "special"@ {
        Some(FormatCategory::Special)
    } else if l == "ona"@ || l == "web"@ {
        Some(FormatCategory::Ona)
    } else {
        None
    }
}

proof fn lemma_category_literals()
    ensures
        ascii_lower_seq("movie"@) == "movie"@,
        ascii_lower_seq("tv"@) == "tv"@,
        ascii_lower_seq("ova"@) == "ova"@,
        ascii_lower_seq("special"@) == "special"@,
        ascii_lower_seq("ona"@) == "ona"@,
        ascii_lower_seq("web"@) == "web"@,
{
    reveal_strlit("movie");
    reveal_strlit("tv");
    reveal_strlit("ova");
    reveal_strlit("special");
    reveal_strlit("ona");
    reveal_strlit("web");
    assert(ascii_lower_seq("movie"@) =~= "movie"@);
    assert(ascii_lower_seq("tv"@) =~= "tv"@);
    assert(ascii_lower_seq("ova"@) =~= "ova"@);
    assert(ascii_lower_seq("special"@) =~= "special"@);
    assert(ascii_lower_seq("ona"@) =~= "ona"@);
    assert(ascii_lower_seq("web"@) =~= "web"@);
}

/// The category a format tag names.
pub fn format_category(tag: &str) -> (r: Option<FormatCategory>)
    ensures
        r == format_category_spec(tag@),
{
    proof {
        lemma_category_literals();
    }
    if eq_ignore_ascii_case(tag, "movie") {
        Some(FormatCategory::Movie)
    } else if eq_ignore_ascii_case(tag, "tv") {
        Some(FormatCategory::Tv)
    } else if eq_ignore_ascii_case(tag, "ova") {
        Some(FormatCategory::Ova)
    } else if eq_ignore_ascii_case(tag, "special") {
        Some(FormatCategory::Special)
    } else if eq_ignore_ascii_case(tag, "ona") || eq_ignore_ascii_case(tag, "web") {
        Some(FormatCategory::Ona)
    } else {
        None
    }
}

/// The category of an optional tag.
pub open spec fn opt_category(tag: Option<Seq<char>>) -> Option<FormatCategory> {
    match tag {
        Some(t) => format_category_spec(t),
        None => None,
    }
}

/// Whether a card's badge is compatible with the caller's expectation:
/// when both the subtype and the badge name known categories they must
/// agree; otherwise only the count-derived exclusion applies — a
/// movie-badged card cannot be a multi-episode series.
pub open spec fn format_compatible_spec(
    kind: Option<Seq<char>>,
    expected: Option<u32>,
    subtype: Option<Seq<char>>,
) -> bool {
    let want = opt_category(subtype);
    let have = opt_category(kind);
    match (want, have) {
        (Some(w), Some(h)) => w == h,
        _ => {
            let expects_non_movie = want is None && (match expected {
                Some(n) => n > 1,
                None => false,
            });
            !(expects_non_movie && have == Some(FormatCategory::Movie))
        },
    }
}

fn opt_format_category(tag: Option<&str>) -> (r: Option<FormatCategory>)
    ensures
        r == opt_category(
            match tag {
                Some(t) => Some(t@),
                None => None,
            },
        ),
{
    match tag {
        Some(t) => format_category(t),
        None => None,
    }
}

/// Whether one format tag is compatible with the caller's expectation.
pub fn format_compatible(kind: Option<&str>, expected: Option<u32>, subtype: Option<&str>) -> (r:
    bool)
    ensures
        r == format_compatible_spec(
            match kind {
                Some(t) => Some(t@),
                None => None,
            },
            expected,
            match subtype {
                Some(t) => Some(t@),
                None => None,
            },
        ),
{
    let want = opt_format_category(subtype);
    let have = opt_format_category(kind);
    match (want, have) {
        (Some(w), Some(h)) => w == h,
        _ => {
            let expects_non_movie = want.is_none() && match expected {
                Some(n) => n > 1,
                None => false,
            };
            !(expects_non_movie && have == Some(FormatCategory::Movie))
        },
    }
}

/// The view of a hit's badge.
pub open spec fn kind_view(h: BrowseHit) -> Option<Seq<char>> {
    match h.kind {
        Some(k) => Some(k@),
        None => None,
    }
}

/// The hits whose badges survive the format disproof, in order.
pub open spec fn format_survivors_spec(
    hits: Seq<BrowseHit>,
    expected: Option<u32>,
    subtype: Option<Seq<char>>,
) -> Seq<BrowseHit>
    decreases hits.len(),
{
    if hits.len() == 0 {
        Seq::empty()
    } else {
        let rest = format_survivors_spec(hits.drop_last(), expected, subtype);
        if format_compatible_spec(kind_view(hits.last()), expected, subtype) {
            rest.push(hits.last())
        } else {
            rest
        }
    }
}

/// The format disproof over the raw hit list, before the probe head is
/// taken.
pub fn format_survivors(hits: &[BrowseHit], expected: Option<u32>, subtype: Option<&str>) -> (r: Vec<
    BrowseHit,
>)
    ensures
        r@ == format_survivors_spec(
            hits@,
            expected,
            match subtype {
                Some(t) => Some(t@),
                None => None,
            },
        ),
{
    let ghost sub = match subtype {
        Some(t) => Some(t@),
        None => None,
    };
    let mut out: Vec<BrowseHit> = Vec::new();
    let mut i: usize = 0;
    while i < hits.len()
        invariant
            i <= hits@.len(),
            sub == (match subtype {
                Some(t) => Some(t@),
                None => None,
            }),
            out@ == format_survivors_spec(hits@.subrange(0, i as int), expected, sub),
        decreases hits@.len() - i,
    {
        proof {
            assert(hits@.subrange(0, i + 1).drop_last() =~= hits@.subrange(0, i as int));
            assert(hits@.subrange(0, i + 1).last() == hits@[i as int]);
        }
        let kind: Option<&str> = match &hits[i].kind {
            Some(k) => Some(k.as_str()),
            None => None,
        };
        if format_compatible(kind, expected, subtype) {
            out.push(clone_hit(&hits[i]));
        }
        i = i + 1;
    }
    proof {
        assert(hits@.subrange(0, i as int) =~= hits@);
    }
    out
}

/// With no subtype category and no multi-episode count, the disproof
/// keeps every hit.
pub proof fn law_signal_less_disproof_is_the_identity(
    hits: Seq<BrowseHit>,
    expected: Option<u32>,
    subtype: Option<Seq<char>>,
)
    requires
        opt_category(subtype) is None,
        !(expected matches Some(n) && n > 1),
    ensures
        format_survivors_spec(hits, expected, subtype) == hits,
    decreases hits.len(),
{
    if hits.len() > 0 {
        law_signal_less_disproof_is_the_identity(hits.drop_last(), expected, subtype);
        assert(hits.drop_last().push(hits.last()) =~= hits);
    }
}

/// The survivors never outnumber the hits.
pub proof fn law_survivors_are_a_subsequence(
    hits: Seq<BrowseHit>,
    expected: Option<u32>,
    subtype: Option<Seq<char>>,
)
    ensures
        format_survivors_spec(hits, expected, subtype).len() <= hits.len(),
        forall|i: int|
            0 <= i < format_survivors_spec(hits, expected, subtype).len() ==> hits.contains(
                #[trigger] format_survivors_spec(hits, expected, subtype)[i],
            ),
    decreases hits.len(),
{
    if hits.len() > 0 {
        law_survivors_are_a_subsequence(hits.drop_last(), expected, subtype);
        let rest = format_survivors_spec(hits.drop_last(), expected, subtype);
        let out = format_survivors_spec(hits, expected, subtype);
        assert forall|i: int| 0 <= i < out.len() implies hits.contains(#[trigger] out[i]) by {
            if i < rest.len() {
                assert(out[i] == rest[i]);
                let j = choose|j: int| 0 <= j < hits.drop_last().len() && hits.drop_last()[j]
                    == rest[i];
                assert(hits[j] == rest[i]);
            } else {
                assert(out[i] == hits.last());
                assert(hits[hits.len() - 1] == hits.last());
            }
        }
    }
}

// ---------------------------------------------------------------------
// Title identity
// ---------------------------------------------------------------------

/// The comparison key of a title: trimmed, lowercased.
pub open spec fn title_key(s: Seq<char>) -> Seq<char> {
    unicode_lowercase(trim_spec(s))
}

/// The comparison key of a title.
pub fn title_needle(title: &str) -> (r: String)
    ensures
        r@ == title_key(title@),
{
    to_lowercase(trim(title))
}

/// Whether a hit's title is exactly the searched title (trimmed,
/// case-insensitive).
pub fn title_matches(hit_title: &str, needle: &str) -> (r: bool)
    ensures
        r == (title_key(hit_title@) == needle@),
{
    let key = title_needle(hit_title);
    str_eq(key.as_str(), needle)
}

/// Identity a candidate carries: 0 = exact title, 1 = year-confirmed,
/// 2 = neither. Lower outranks higher.
pub open spec fn identity_rank_spec(title_matches: bool, confirmed: bool) -> u8 {
    if title_matches {
        0
    } else if confirmed {
        1
    } else {
        2
    }
}

/// The identity rank of a candidate.
pub fn identity_rank(title_matches: bool, confirmed: bool) -> (r: u8)
    ensures
        r == identity_rank_spec(title_matches, confirmed),
{
    if title_matches {
        0
    } else if confirmed {
        1
    } else {
        2
    }
}

// ---------------------------------------------------------------------
// Year filter
// ---------------------------------------------------------------------

/// What a candidate's detail year says against Kitsu's.
#[derive(Debug, Clone, Copy, PartialEq, Eq, Structural)]
pub enum YearVerdict {
    /// The same year: positive identity.
    Confirmed,
    /// One year off (December premieres straddle catalogue years): stays
    /// in the pool without vouching for the candidate.
    Tolerated,
    /// More than one year off: excluded.
    Excluded,
    /// The detail page names no year: never excluded.
    Unknown,
}

/// The verdict of a candidate's detail year against Kitsu's year.
pub open spec fn year_verdict_spec(detail: Option<u32>, year: u32) -> YearVerdict {
    match detail {
        Some(y) => if y == year {
            YearVerdict::Confirmed
        } else if y + 1 == year || year + 1 == y {
            YearVerdict::Tolerated
        } else {
            YearVerdict::Excluded
        },
        None => YearVerdict::Unknown,
    }
}

/// Judge a candidate's detail year.
pub fn year_verdict(detail: Option<u32>, year: u32) -> (r: YearVerdict)
    ensures
        r == year_verdict_spec(detail, year),
{
    match detail {
        Some(y) => if y == year {
            YearVerdict::Confirmed
        } else if (y < year && year - y == 1) || (year < y && y - year == 1) {
            YearVerdict::Tolerated
        } else {
            YearVerdict::Excluded
        },
        None => YearVerdict::Unknown,
    }
}

/// The considered head after the year filter: each kept candidate's
/// index with whether its year confirmed it, plus whether any candidate
/// was excluded. `Err(NoResults)` when no candidate is kept.
pub open spec fn year_filter_spec(verdicts: Seq<YearVerdict>) -> Seq<(int, bool)>
    decreases verdicts.len(),
{
    if verdicts.len() == 0 {
        Seq::empty()
    } else {
        let rest = year_filter_spec(verdicts.drop_last());
        let i = verdicts.len() - 1;
        match verdicts.last() {
            YearVerdict::Excluded => rest,
            YearVerdict::Confirmed => rest.push((i, true)),
            _ => rest.push((i, false)),
        }
    }
}

/// Whether any verdict excluded its candidate.
pub open spec fn any_excluded(verdicts: Seq<YearVerdict>) -> bool {
    exists|i: int| 0 <= i < verdicts.len() && verdicts[i] == YearVerdict::Excluded
}

/// Narrow the considered head by the verdicts of its detail years: the
/// kept candidates' indices with their confirmation flag, and whether
/// any was excluded; a pool whose every candidate is excluded contains
/// the show nowhere and is rejected with `NoResults`.
pub fn year_filtered(verdicts: &[YearVerdict]) -> (r: Result<(Vec<(usize, bool)>, bool), AniError>)
    ensures
        match r {
            Ok((kept, excluded)) => {
                &&& kept@.len() > 0
                &&& kept@.map_values(|p: (usize, bool)| (p.0 as int, p.1)) == year_filter_spec(
                    verdicts@,
                )
                &&& excluded == any_excluded(verdicts@)
            },
            Err(e) => e == AniError::NoResults && year_filter_spec(verdicts@).len() == 0,
        },
{
    let mut kept: Vec<(usize, bool)> = Vec::new();
    let mut excluded = false;
    let mut i: usize = 0;
    while i < verdicts.len()
        invariant
            i <= verdicts@.len(),
            kept@.map_values(|p: (usize, bool)| (p.0 as int, p.1)) =~= year_filter_spec(
                verdicts@.subrange(0, i as int),
            ),
            excluded == any_excluded(verdicts@.subrange(0, i as int)),
        decreases verdicts@.len() - i,
    {
        let ghost prev = verdicts@.subrange(0, i as int);
        let ghost next = verdicts@.subrange(0, i + 1);
        proof {
            assert(next.drop_last() =~= prev);
            assert(next.last() == verdicts@[i as int]);
        }
        match verdicts[i] {
            YearVerdict::Excluded => {
                excluded = true;
            },
            YearVerdict::Confirmed => {
                kept.push((i, true));
            },
            _ => {
                kept.push((i, false));
            },
        }
        proof {
            if excluded {
                if verdicts@[i as int] == YearVerdict::Excluded {
                    assert(next[i as int] == YearVerdict::Excluded);
                } else {
                    let k = choose|k: int| 0 <= k < prev.len() && prev[k] == YearVerdict::Excluded;
                    assert(next[k] == prev[k]);
                }
            } else {
                assert forall|k: int| 0 <= k < next.len() implies next[k]
                    != YearVerdict::Excluded by {
                    if k < prev.len() {
                        assert(next[k] == prev[k]);
                    }
                }
            }
        }
        i = i + 1;
    }
    proof {
        assert(verdicts@.subrange(0, i as int) =~= verdicts@);
    }
    if kept.len() == 0 {
        return Err(AniError::NoResults);
    }
    Ok((kept, excluded))
}

// ---------------------------------------------------------------------
// Choosing among probed candidates
// ---------------------------------------------------------------------

/// What the episodes probe of one head candidate answered.
#[derive(Debug, Clone, PartialEq, Eq)]
pub enum ProbeOutcome {
    /// The listing arrived.
    Listed {
        /// How many episodes it lists.
        episodes: u32,
        /// Whether the candidate's title is exactly the searched one.
        title_matches: bool,
        /// Whether its detail year positively matched Kitsu's.
        confirmed: bool,
    },
    /// The probe failed.
    Failed(AniError),
}

/// A probe failure that ends the pick: the provider blocking this
/// client, or the admission control's own refusal — every further probe repeats the
/// same answer.
pub open spec fn stops_pick(e: AniError) -> bool {
    is_provider_block_spec(e) || e == AniError::GateRefused
}

/// The first failure, in probe order, that ends the pick.
pub open spec fn first_stop(ps: Seq<ProbeOutcome>) -> Option<AniError>
    decreases ps.len(),
{
    if ps.len() == 0 {
        None
    } else {
        match first_stop(ps.drop_last()) {
            Some(e) => Some(e),
            None => match ps.last() {
                ProbeOutcome::Failed(e) => if stops_pick(e) {
                    Some(e)
                } else {
                    None
                },
                _ => None,
            },
        }
    }
}

/// A probe that died in transport rather than being answered.
pub open spec fn is_transport_failure(p: ProbeOutcome) -> bool {
    match p {
        ProbeOutcome::Failed(e) => !(e is Upstream),
        _ => false,
    }
}

/// Whether any probe died in transport rather than being answered.
pub open spec fn any_transport_failure(ps: Seq<ProbeOutcome>) -> bool {
    exists|i: int| 0 <= i < ps.len() && #[trigger] is_transport_failure(ps[i])
}

/// `|a - b|`.
pub open spec fn abs_diff(a: u32, b: u32) -> u32 {
    if a >= b {
        (a - b) as u32
    } else {
        (b - a) as u32
    }
}

/// A listed candidate's distance from the expected count.
pub open spec fn distance(p: ProbeOutcome, expected: u32) -> Option<u32> {
    match p {
        ProbeOutcome::Listed { episodes, .. } => Some(abs_diff(episodes, expected)),
        _ => None,
    }
}

/// `i` holds the first minimal key among the present ones.
pub open spec fn is_first_argmin(keys: Seq<Option<u32>>, i: int) -> bool {
    &&& 0 <= i < keys.len()
    &&& keys[i] is Some
    &&& forall|j: int| 0 <= j < keys.len() && keys[j] is Some ==> keys[i]->0 <= keys[j]->0
    &&& forall|j: int| 0 <= j < i && keys[j] is Some ==> keys[j]->0 > keys[i]->0
}

/// The first minimal key's position, if any key is present.
pub open spec fn first_argmin_spec(keys: Seq<Option<u32>>) -> Option<int> {
    if exists|i: int| is_first_argmin(keys, i) {
        Some(choose|i: int| is_first_argmin(keys, i))
    } else {
        None
    }
}

/// Only one position holds the first minimal key.
pub proof fn lemma_first_argmin_unique(keys: Seq<Option<u32>>, i: int, j: int)
    requires
        is_first_argmin(keys, i),
        is_first_argmin(keys, j),
    ensures
        i == j,
{
}

/// The position of the first minimal present key.
pub fn first_argmin(keys: &Vec<Option<u32>>) -> (r: Option<usize>)
    ensures
        match r {
            Some(i) => first_argmin_spec(keys@) == Some(i as int),
            None => first_argmin_spec(keys@) is None && forall|j: int|
                0 <= j < keys@.len() ==> keys@[j] is None,
        },
{
    let mut best: Option<usize> = None;
    let mut i: usize = 0;
    while i < keys.len()
        invariant
            i <= keys@.len(),
            match best {
                Some(b) => {
                    &&& b < i
                    &&& keys@[b as int] is Some
                    &&& forall|j: int|
                        0 <= j < i && keys@[j] is Some ==> keys@[b as int]->0 <= keys@[j]->0
                    &&& forall|j: int|
                        0 <= j < b && keys@[j] is Some ==> keys@[j]->0 > keys@[b as int]->0
                },
                None => forall|j: int| 0 <= j < i ==> keys@[j] is None,
            },
        decreases keys@.len() - i,
    {
        match keys[i] {
            Some(k) => {
                match best {
                    Some(b) => {
                        let kb = match keys[b] {
                            Some(x) => x,
                            None => 0,
                        };
                        if k < kb {
                            best = Some(i);
                        }
                    },
                    None => {
                        best = Some(i);
                    },
                }
            },
            None => {},
        }
        i = i + 1;
    }
    match best {
        Some(b) => {
            proof {
                assert(is_first_argmin(keys@, b as int));
                let w = choose|w: int| is_first_argmin(keys@, w);
                lemma_first_argmin_unique(keys@, w, b as int);
            }
            Some(b)
        },
        None => {
            proof {
                assert forall|w: int| !is_first_argmin(keys@, w) by {}
            }
            None
        },
    }
}

/// The best (smallest) distance among listed candidates.
pub open spec fn best_distance(ps: Seq<ProbeOutcome>, expected: u32) -> Option<u32>
    decreases ps.len(),
{
    if ps.len() == 0 {
        None
    } else {
        let rest = best_distance(ps.drop_last(), expected);
        match (rest, distance(ps.last(), expected)) {
            (Some(a), Some(b)) => Some(if a <= b { a } else { b }),
            (Some(a), None) => Some(a),
            (None, b) => b,
        }
    }
}

/// The rescue keys: a confirmed candidate whose listing is shorter than
/// the expected count (an airing part) competes on distance.
pub open spec fn rescue_keys(ps: Seq<ProbeOutcome>, expected: u32) -> Seq<Option<u32>> {
    Seq::new(
        ps.len(),
        |i: int|
            match ps[i] {
                ProbeOutcome::Listed { episodes, confirmed, .. } => if confirmed && episodes
                    < expected {
                    Some(abs_diff(episodes, expected))
                } else {
                    None
                },
                _ => None,
            },
    )
}

/// The identity key ordering equally distant candidates: an exact
/// title first, a confirmed year second (lexicographically).
pub open spec fn identity_key(title_matches: bool, confirmed: bool) -> u32 {
    if title_matches {
        if confirmed { 0 } else { 1 }
    } else {
        if confirmed { 2 } else { 3 }
    }
}

/// The winner keys among the best-distance candidates: an exact title
/// outranks everything, a confirmed year outranks a tolerated one.
pub open spec fn winner_keys(ps: Seq<ProbeOutcome>, expected: u32, best: u32) -> Seq<Option<u32>> {
    Seq::new(
        ps.len(),
        |i: int|
            match ps[i] {
                ProbeOutcome::Listed { episodes, title_matches, confirmed } => if abs_diff(
                    episodes,
                    expected,
                ) == best {
                    Some(identity_key(title_matches, confirmed))
                } else {
                    None
                },
                _ => None,
            },
    )
}

/// The pick over probed candidates with a known expected count: the
/// first stopping failure ends it; an empty pool is `Network` when any
/// probe died in transport and the not-found-shaped `Upstream 404`
/// otherwise; beyond the threshold only the airing-part rescue can win,
/// else `NoResults`; within it the best-ranked equally distant
/// candidate wins, ties to provider order.
pub open spec fn choose_probed_spec(ps: Seq<ProbeOutcome>, expected: u32) -> Result<int, AniError> {
    match first_stop(ps) {
        Some(e) => Err(e),
        None => match best_distance(ps, expected) {
            None => if any_transport_failure(ps) {
                Err(AniError::Network)
            } else {
                Err(AniError::Upstream { status: 404 })
            },
            Some(best) => if best > threshold_spec(expected) {
                match first_argmin_spec(rescue_keys(ps, expected)) {
                    Some(i) => Ok(i),
                    None => Err(AniError::NoResults),
                }
            } else {
                match first_argmin_spec(winner_keys(ps, expected, best)) {
                    Some(i) => Ok(i),
                    None => Err(AniError::NoResults),
                }
            },
        },
    }
}

/// Whether a probe failure ends the pick.
pub fn probe_stops_pick(e: &AniError) -> (r: bool)
    ensures
        r == stops_pick(*e),
{
    e.is_provider_block() || match e {
        AniError::GateRefused => true,
        _ => false,
    }
}

/// Choose among the probed head: the index of the winner in `probes`.
pub fn choose_probed(probes: &Vec<ProbeOutcome>, expected: u32) -> (r: Result<usize, AniError>)
    ensures
        match r {
            Ok(i) => choose_probed_spec(probes@, expected) == Ok::<int, AniError>(i as int),
            Err(e) => choose_probed_spec(probes@, expected) == Err::<int, AniError>(e),
        },
{
    let n = probes.len();
    let mut stop: Option<AniError> = None;
    let mut transport = false;
    let mut best: Option<u32> = None;
    let mut i: usize = 0;
    while i < n
        invariant
            i <= n,
            n == probes@.len(),
            stop == first_stop(probes@.subrange(0, i as int)),
            transport == any_transport_failure(probes@.subrange(0, i as int)),
            best == best_distance(probes@.subrange(0, i as int), expected),
        decreases n - i,
    {
        let ghost prev = probes@.subrange(0, i as int);
        let ghost next = probes@.subrange(0, i + 1);
        proof {
            assert(next.drop_last() =~= prev);
            assert(next.last() == probes@[i as int]);
        }
        match &probes[i] {
            ProbeOutcome::Listed { episodes, .. } => {
                let d = if *episodes >= expected {
                    *episodes - expected
                } else {
                    expected - *episodes
                };
                best = match best {
                    Some(a) => Some(if a <= d { a } else { d }),
                    None => Some(d),
                };
            },
            ProbeOutcome::Failed(e) => {
                if stop.is_none() && probe_stops_pick(e) {
                    stop = Some(e.duplicate());
                }
                match e {
                    AniError::Upstream { .. } => {},
                    _ => {
                        transport = true;
                    },
                }
            },
        }
        proof {
            if transport {
                if !any_transport_failure(prev) {
                    assert(is_transport_failure(next[i as int]));
                } else {
                    let k = choose|k: int| 0 <= k < prev.len() && is_transport_failure(prev[k]);
                    assert(next[k] == prev[k]);
                    assert(is_transport_failure(next[k]));
                }
            } else {
                assert forall|k: int| 0 <= k < next.len() implies !is_transport_failure(next[k]) by {
                    if k < prev.len() {
                        assert(next[k] == prev[k]);
                    }
                }
            }
        }
        i = i + 1;
    }
    proof {
        assert(probes@.subrange(0, n as int) =~= probes@);
    }
    if let Some(e) = stop {
        return Err(e);
    }
    let best = match best {
        Some(b) => b,
        None => {
            return if transport {
                Err(AniError::Network)
            } else {
                Err(AniError::Upstream { status: 404 })
            };
        },
    };
    if best > ep_count_threshold(expected) {
        let keys = rescue_key_vec(probes, expected);
        match first_argmin(&keys) {
            Some(idx) => Ok(idx),
            None => Err(AniError::NoResults),
        }
    } else {
        let keys = winner_key_vec(probes, expected, best);
        match first_argmin(&keys) {
            Some(idx) => Ok(idx),
            None => Err(AniError::NoResults),
        }
    }
}

fn rescue_key_vec(probes: &Vec<ProbeOutcome>, expected: u32) -> (r: Vec<Option<u32>>)
    ensures
        r@ == rescue_keys(probes@, expected),
{
    let mut out: Vec<Option<u32>> = Vec::new();
    let mut i: usize = 0;
    while i < probes.len()
        invariant
            i <= probes@.len(),
            out@.len() == i,
            forall|k: int| 0 <= k < i ==> out@[k] == rescue_keys(probes@, expected)[k],
        decreases probes@.len() - i,
    {
        let key = match &probes[i] {
            ProbeOutcome::Listed { episodes, confirmed, .. } => if *confirmed && *episodes
                < expected {
                Some(expected - *episodes)
            } else {
                None
            },
            _ => None,
        };
        out.push(key);
        i = i + 1;
    }
    proof {
        assert(out@ =~= rescue_keys(probes@, expected));
    }
    out
}

fn winner_key_vec(probes: &Vec<ProbeOutcome>, expected: u32, best: u32) -> (r: Vec<Option<u32>>)
    ensures
        r@ == winner_keys(probes@, expected, best),
{
    let mut out: Vec<Option<u32>> = Vec::new();
    let mut i: usize = 0;
    while i < probes.len()
        invariant
            i <= probes@.len(),
            out@.len() == i,
            forall|k: int| 0 <= k < i ==> out@[k] == winner_keys(probes@, expected, best)[k],
        decreases probes@.len() - i,
    {
        let key = match &probes[i] {
            ProbeOutcome::Listed { episodes, title_matches, confirmed } => {
                let d = if *episodes >= expected {
                    *episodes - expected
                } else {
                    expected - *episodes
                };
                if d == best {
                    Some(
                        if *title_matches {
                            if *confirmed { 0u32 } else { 1u32 }
                        } else {
                            if *confirmed { 2u32 } else { 3u32 }
                        },
                    )
                } else {
                    None
                }
            },
            _ => None,
        };
        out.push(key);
        i = i + 1;
    }
    proof {
        assert(out@ =~= winner_keys(probes@, expected, best));
    }
    out
}

/// A winner within the threshold sits exactly at the best distance, and
/// no equally distant candidate before it carries a better identity.
pub proof fn law_winner_is_best_and_best_identified(ps: Seq<ProbeOutcome>, expected: u32)
    requires
        choose_probed_spec(ps, expected) is Ok,
        best_distance(ps, expected) matches Some(b) && b <= threshold_spec(expected),
    ensures
        ({
            let i = choose_probed_spec(ps, expected)->Ok_0;
            let b = best_distance(ps, expected)->0;
            &&& 0 <= i < ps.len()
            &&& distance(ps[i], expected) == Some(b)
            &&& forall|j: int|
                0 <= j < i && distance(ps[j], expected) == Some(b) ==> (#[trigger] winner_keys(
                    ps,
                    expected,
                    b,
                )[j])->0 > winner_keys(ps, expected, b)[i]->0
        }),
{
    let b = best_distance(ps, expected)->0;
    let keys = winner_keys(ps, expected, b);
    let i = choose_probed_spec(ps, expected)->Ok_0;
    assert(is_first_argmin(keys, i));
    assert forall|j: int| 0 <= j < i && distance(ps[j], expected) == Some(b) implies (
    #[trigger] winner_keys(ps, expected, b)[j])->0 > winner_keys(ps, expected, b)[i]->0 by {
        assert(keys[j] is Some);
    }
}

/// Within the threshold an exact title is the user's own words and
/// stays dominant: when any candidate at the winning distance matches
/// the title exactly, the winner does; a confirmed year only breaks the
/// tie between candidates with the same title verdict; and among
/// candidates alike in both, the earliest in provider order wins.
pub proof fn law_exact_title_dominates_the_year(ps: Seq<ProbeOutcome>, expected: u32, j: int)
    requires
        choose_probed_spec(ps, expected) is Ok,
        best_distance(ps, expected) matches Some(b) && b <= threshold_spec(expected),
        0 <= j < ps.len(),
        ps[j] is Listed,
        distance(ps[j], expected) == best_distance(ps, expected),
    ensures
        ({
            let i = choose_probed_spec(ps, expected)->Ok_0;
            &&& ps[i] is Listed
            &&& ps[j]->title_matches ==> ps[i]->title_matches
            &&& (ps[j]->title_matches == ps[i]->title_matches && ps[j]->confirmed)
                ==> ps[i]->confirmed
            &&& (ps[j]->title_matches == ps[i]->title_matches && ps[j]->confirmed
                == ps[i]->confirmed) ==> i <= j
        }),
{
    let b = best_distance(ps, expected)->0;
    let keys = winner_keys(ps, expected, b);
    let i = choose_probed_spec(ps, expected)->Ok_0;
    assert(is_first_argmin(keys, i));
    assert(keys[j] is Some);
    assert(ps[i] is Listed);
}

/// A pick beyond the threshold only ever lands on a year-confirmed
/// candidate whose listing is shorter than the expected count.
pub proof fn law_rescue_requires_confirmed_short_listing(ps: Seq<ProbeOutcome>, expected: u32)
    requires
        choose_probed_spec(ps, expected) is Ok,
        best_distance(ps, expected) matches Some(b) && b > threshold_spec(expected),
    ensures
        ps[choose_probed_spec(ps, expected)->Ok_0] matches ProbeOutcome::Listed {
            episodes,
            confirmed,
            ..
        } && confirmed && episodes < expected,
{
    let i = choose_probed_spec(ps, expected)->Ok_0;
    assert(is_first_argmin(rescue_keys(ps, expected), i));
}

// ---------------------------------------------------------------------
// The pick without a count
// ---------------------------------------------------------------------

/// The head candidate's identity evidence for a countless pick.
#[derive(Debug, Clone, PartialEq, Eq)]
pub struct HeadCandidate {
    /// The candidate's slug.
    pub slug: String,
    /// Whether its title is exactly the searched one.
    pub title_matches: bool,
    /// Whether its detail year positively matched Kitsu's.
    pub confirmed: bool,
}

/// The head positions below `n` a phase of the countless preference
/// order lists, in provider order: phase 0 takes exact titles, phase 1
/// year-confirmed candidates, phase 2 every candidate.
pub open spec fn phase_indices(head: Seq<HeadCandidate>, phase: int, n: int) -> Seq<int>
    decreases n,
{
    if n <= 0 {
        Seq::empty()
    } else {
        let rest = phase_indices(head, phase, n - 1);
        if phase_wants(head[n - 1], phase) {
            rest.push(n - 1)
        } else {
            rest
        }
    }
}

/// Whether a phase of the preference order lists a candidate.
pub open spec fn phase_wants(c: HeadCandidate, phase: int) -> bool {
    if phase == 0 {
        c.title_matches
    } else if phase == 1 {
        c.confirmed
    } else {
        true
    }
}

/// The phases before `phase`, concatenated.
pub open spec fn phases_before(head: Seq<HeadCandidate>, phase: int) -> Seq<int>
    decreases phase,
{
    if phase <= 0 {
        Seq::empty()
    } else {
        phases_before(head, phase - 1) + phase_indices(head, phase - 1, head.len() as int)
    }
}

/// Preference order before deduplication: exact titles, then
/// year-confirmed candidates, then (unless the year disproved part of
/// the pool) every candidate in provider order.
pub open spec fn countless_order_raw(head: Seq<HeadCandidate>, year_excluded_any: bool) -> Seq<int> {
    if year_excluded_any {
        phases_before(head, 2)
    } else {
        phases_before(head, 3)
    }
}

/// Whether some listed position carries the same slug as `c`.
pub open spec fn slug_listed(head: Seq<HeadCandidate>, listed: Seq<int>, c: int) -> bool {
    exists|k: int| 0 <= k < listed.len() && #[trigger] head[listed[k]].slug@ == head[c].slug@
}

/// Positions in `order`, each slug kept at its first occurrence only.
pub open spec fn dedup_by_slug(head: Seq<HeadCandidate>, order: Seq<int>) -> Seq<int>
    decreases order.len(),
{
    if order.len() == 0 {
        Seq::empty()
    } else {
        let rest = dedup_by_slug(head, order.drop_last());
        if slug_listed(head, rest, order.last()) {
            rest
        } else {
            rest.push(order.last())
        }
    }
}

/// The order in which a countless pick tries candidates' listings.
pub open spec fn countless_order_spec(head: Seq<HeadCandidate>, year_excluded_any: bool) -> Seq<int> {
    dedup_by_slug(head, countless_order_raw(head, year_excluded_any))
}

/// Positions as integers.
pub open spec fn as_ints(v: Seq<usize>) -> Seq<int> {
    v.map_values(|x: usize| x as int)
}

/// The candidate positions a countless pick tries, in order.
pub fn countless_order(head: &Vec<HeadCandidate>, year_excluded_any: bool) -> (r: Vec<usize>)
    ensures
        as_ints(r@) == countless_order_spec(head@, year_excluded_any),
{
    let n = head.len();
    let phases: usize = if year_excluded_any { 2 } else { 3 };
    let mut out: Vec<usize> = Vec::new();
    let mut phase: usize = 0;
    while phase < phases
        invariant
            n == head@.len(),
            phase <= phases,
            phases == (if year_excluded_any { 2usize } else { 3usize }),
            as_ints(out@) == dedup_by_slug(head@, phases_before(head@, phase as int)),
            forall|k: int| 0 <= k < out@.len() ==> out@[k] < n,
        decreases phases - phase,
    {
        let mut i: usize = 0;
        while i < n
            invariant
                i <= n,
                n == head@.len(),
                phase < phases,
                phases == (if year_excluded_any { 2usize } else { 3usize }),
                as_ints(out@) == dedup_by_slug(
                    head@,
                    phases_before(head@, phase as int) + phase_indices(head@, phase as int, i as int),
                ),
                forall|k: int| 0 <= k < out@.len() ==> out@[k] < n,
            decreases n - i,
        {
            let ghost order = phases_before(head@, phase as int) + phase_indices(
                head@,
                phase as int,
                i as int,
            );
            let wanted = if phase == 0 {
                head[i].title_matches
            } else if phase == 1 {
                head[i].confirmed
            } else {
                true
            };
            if wanted {
                let mut k: usize = 0;
                let mut dup = false;
                while k < out.len()
                    invariant
                        k <= out@.len(),
                        i < n,
                        n == head@.len(),
                        forall|q: int| 0 <= q < out@.len() ==> out@[q] < n,
                        dup ==> slug_listed(head@, as_ints(out@), i as int),
                        !dup ==> forall|q: int|
                            0 <= q < k ==> head@[out@[q] as int].slug@ != head@[i as int].slug@,
                    ensures
                        dup ==> slug_listed(head@, as_ints(out@), i as int),
                        !dup ==> forall|q: int|
                            0 <= q < out@.len() ==> head@[out@[q] as int].slug@
                                != head@[i as int].slug@,
                    decreases out@.len() - k,
                {
                    if str_eq(head[out[k]].slug.as_str(), head[i].slug.as_str()) {
                        proof {
                            assert(as_ints(out@)[k as int] == out@[k as int] as int);
                        }
                        dup = true;
                        break;
                    }
                    k = k + 1;
                }
                let ghost next = order.push(i as int);
                proof {
                    assert(next.drop_last() =~= order);
                    assert(phase_indices(head@, phase as int, i + 1) == phase_indices(
                        head@,
                        phase as int,
                        i as int,
                    ).push(i as int));
                    assert(phases_before(head@, phase as int) + phase_indices(
                        head@,
                        phase as int,
                        i + 1,
                    ) =~= next);
                    if !dup {
                        assert forall|q: int| 0 <= q < as_ints(out@).len() implies #[trigger] head@[as_ints(
                            out@,
                        )[q]].slug@ != head@[i as int].slug@ by {
                            assert(as_ints(out@)[q] == out@[q] as int);
                        }
                    }
                }
                if !dup {
                    let ghost before = out@;
                    out.push(i);
                    proof {
                        assert(as_ints(out@) =~= as_ints(before).push(i as int));
                    }
                }
            } else {
                proof {
                    assert(phases_before(head@, phase as int) + phase_indices(
                        head@,
                        phase as int,
                        i + 1,
                    ) =~= order);
                }
            }
            i = i + 1;
        }
        proof {
            assert(phases_before(head@, phase + 1) == phases_before(head@, phase as int)
                + phase_indices(head@, phase as int, n as int));
        }
        phase = phase + 1;
    }
    out
}

/// A countless pick never tries two candidates with the same slug, and
/// tries only head positions.
pub proof fn law_countless_order_is_slug_distinct(head: Seq<HeadCandidate>, order: Seq<int>)
    requires
        forall|k: int| 0 <= k < order.len() ==> 0 <= #[trigger] order[k] < head.len(),
    ensures
        forall|k: int|
            0 <= k < dedup_by_slug(head, order).len() ==> 0 <= #[trigger] dedup_by_slug(
                head,
                order,
            )[k] < head.len(),
        forall|a: int, b: int|
            0 <= a < b < dedup_by_slug(head, order).len() ==> head[dedup_by_slug(head, order)[a]].slug@
                != head[dedup_by_slug(head, order)[b]].slug@,
    decreases order.len(),
{
    if order.len() > 0 {
        let d = order.drop_last();
        assert forall|k: int| 0 <= k < d.len() implies 0 <= #[trigger] d[k] < head.len() by {
            assert(d[k] == order[k]);
        }
        law_countless_order_is_slug_distinct(head, d);
        let rest = dedup_by_slug(head, d);
        let last = order.last();
        assert(0 <= order[order.len() - 1] < head.len());
        if !slug_listed(head, rest, last) {
            let out = rest.push(last);
            assert forall|a: int, b: int| 0 <= a < b < out.len() implies head[out[a]].slug@
                != head[out[b]].slug@ by {
                if b == rest.len() {
                    assert(out[a] == rest[a]);
                    assert(!(head[rest[a]].slug@ == head[last].slug@));
                } else {
                    assert(out[a] == rest[a] && out[b] == rest[b]);
                }
            }
        }
    }
}

/// An exact title, when the head holds one, is the first candidate a
/// countless pick tries.
pub proof fn law_exact_title_is_tried_first(head: Seq<HeadCandidate>, year_excluded_any: bool, e: int)
    requires
        0 <= e < head.len(),
        head[e].title_matches,
        forall|j: int| 0 <= j < e ==> !(#[trigger] head[j]).title_matches,
    ensures
        countless_order_spec(head, year_excluded_any).len() > 0,
        countless_order_spec(head, year_excluded_any)[0] == e,
{
    lemma_phase_zero_starts_at(head, head.len() as int, e);
    let p0 = phase_indices(head, 0, head.len() as int);
    let raw = countless_order_raw(head, year_excluded_any);
    assert(phases_before(head, 1) =~= p0) by {
        assert(phases_before(head, 0) =~= Seq::<int>::empty());
    }
    let tail = if year_excluded_any {
        phase_indices(head, 1, head.len() as int)
    } else {
        phase_indices(head, 1, head.len() as int) + phase_indices(head, 2, head.len() as int)
    };
    assert(raw =~= p0 + tail) by {
        if !year_excluded_any {
            assert(phases_before(head, 3) == phases_before(head, 2) + phase_indices(
                head,
                2,
                head.len() as int,
            ));
        }
    }
    assert(raw.len() > 0 && raw[0] == e);
    lemma_dedup_keeps_first(head, raw);
}

proof fn lemma_phase_zero_starts_at(head: Seq<HeadCandidate>, n: int, e: int)
    requires
        0 <= e < head.len(),
        e < n <= head.len(),
        head[e].title_matches,
        forall|j: int| 0 <= j < e ==> !(#[trigger] head[j]).title_matches,
    ensures
        phase_indices(head, 0, n).len() > 0,
        phase_indices(head, 0, n)[0] == e,
    decreases n,
{
    if n - 1 > e {
        lemma_phase_zero_starts_at(head, n - 1, e);
    } else {
        lemma_phase_zero_empty_below(head, e, e);
    }
}

proof fn lemma_phase_zero_empty_below(head: Seq<HeadCandidate>, n: int, e: int)
    requires
        0 <= n <= e < head.len(),
        forall|j: int| 0 <= j < e ==> !(#[trigger] head[j]).title_matches,
    ensures
        phase_indices(head, 0, n).len() == 0,
    decreases n,
{
    if n > 0 {
        lemma_phase_zero_empty_below(head, n - 1, e);
    }
}

proof fn lemma_dedup_keeps_first(head: Seq<HeadCandidate>, order: Seq<int>)
    requires
        order.len() > 0,
    ensures
        dedup_by_slug(head, order).len() > 0,
        dedup_by_slug(head, order)[0] == order[0],
    decreases order.len(),
{
    if order.len() == 1 {
        assert(dedup_by_slug(head, order.drop_last()) =~= Seq::<int>::empty()) by {
            assert(order.drop_last().len() == 0);
        }
    } else {
        lemma_dedup_keeps_first(head, order.drop_last());
    }
}

/// What one listing fetch of a countless pick answered.
#[derive(Debug, Clone, Copy, PartialEq, Eq, Structural)]
pub enum CountlessStep {
    /// The listing arrived: this candidate is the pick.
    Take,
    /// The candidate's listing is dead (an answered not-found): try the
    /// next one.
    Next,
    /// The pick ends with the fetch's error.
    Stop,
}

/// How a countless pick proceeds after a listing fetch.
pub open spec fn countless_step_spec(fetched: Result<(), AniError>) -> CountlessStep {
    match fetched {
        Ok(()) => CountlessStep::Take,
        Err(e) => if stops_pick(e) {
            CountlessStep::Stop
        } else if e is Upstream {
            CountlessStep::Next
        } else {
            CountlessStep::Stop
        },
    }
}

/// Decide the next move of a countless pick from a listing fetch's
/// answer. Running out of candidates is `NoResults`.
pub fn countless_step(fetched: &Result<(), AniError>) -> (r: CountlessStep)
    ensures
        r == countless_step_spec(*fetched),
{
    match fetched {
        Ok(()) => CountlessStep::Take,
        Err(e) => if probe_stops_pick(e) {
            CountlessStep::Stop
        } else {
            match e {
                AniError::Upstream { .. } => CountlessStep::Next,
                _ => CountlessStep::Stop,
            }
        },
    }
}

/// `i` is the first listing fetch whose answer ends a countless pick.
pub open spec fn is_first_decisive(fetches: Seq<Result<(), AniError>>, i: int) -> bool {
    &&& 0 <= i < fetches.len()
    &&& countless_step_spec(fetches[i]) != CountlessStep::Next
    &&& forall|j: int| 0 <= j < i ==> countless_step_spec(#[trigger] fetches[j]) == CountlessStep::Next
}

/// What a countless pick ends with, given the answers of its listing
/// fetches in preference order: the first taken candidate's position,
/// the first stopping error, or `NoResults` when every listing was dead.
pub open spec fn countless_outcome_spec(fetches: Seq<Result<(), AniError>>) -> Result<int, AniError> {
    if exists|i: int| is_first_decisive(fetches, i) {
        let i = choose|i: int| is_first_decisive(fetches, i);
        match fetches[i] {
            Ok(()) => Ok(i),
            Err(e) => Err(e),
        }
    } else {
        Err(AniError::NoResults)
    }
}

/// Fold the listing answers of a countless pick, in the order
/// [`countless_order`] tried them, into the pick's outcome.
pub fn countless_outcome(fetches: &Vec<Result<(), AniError>>) -> (r: Result<usize, AniError>)
    ensures
        match r {
            Ok(i) => countless_outcome_spec(fetches@) == Ok::<int, AniError>(i as int),
            Err(e) => countless_outcome_spec(fetches@) == Err::<int, AniError>(e),
        },
{
    let mut i: usize = 0;
    while i < fetches.len()
        invariant
            i <= fetches@.len(),
            forall|j: int| 0 <= j < i ==> countless_step_spec(#[trigger] fetches@[j]) == CountlessStep::Next,
        decreases fetches@.len() - i,
    {
        match countless_step(&fetches[i]) {
            CountlessStep::Next => {},
            _ => {
                proof {
                    assert(is_first_decisive(fetches@, i as int));
                    let w = choose|w: int| is_first_decisive(fetches@, w);
                    if w < i {
                        assert(countless_step_spec(fetches@[w]) == CountlessStep::Next);
                    }
                    if i < w {
                        assert(countless_step_spec(fetches@[i as int]) == CountlessStep::Next);
                    }
                }
                return match &fetches[i] {
                    Ok(()) => Ok(i),
                    Err(e) => Err(e.duplicate()),
                };
            },
        }
        i = i + 1;
    }
    proof {
        assert forall|w: int| !is_first_decisive(fetches@, w) by {
            if 0 <= w < fetches@.len() {
                assert(countless_step_spec(fetches@[w]) == CountlessStep::Next);
            }
        }
    }
    Err(AniError::NoResults)
}

// ---------------------------------------------------------------------
// The considered head
// ---------------------------------------------------------------------

/// A picked show: the hit plus the episode list its probe already paid
/// for.
#[derive(Debug, Clone, PartialEq, Eq)]
pub struct PickedShow {
    /// The winning browse hit.
    pub hit: BrowseHit,
    /// The show's episodes, as the probe returned them.
    pub episodes: Vec<EpisodeRef>,
}

/// The candidates a pick considers: the format survivors of the raw
/// hits, at most [`MAX_PROBED_CANDIDATES`] of them. An empty hit list,
/// or one the format disproof empties, is `NoResults`.
pub open spec fn pick_head_spec(
    hits: Seq<BrowseHit>,
    expected: Option<u32>,
    subtype: Option<Seq<char>>,
) -> Result<Seq<BrowseHit>, AniError> {
    let survivors = format_survivors_spec(hits, expected, subtype);
    if hits.len() == 0 || survivors.len() == 0 {
        Err(AniError::NoResults)
    } else if survivors.len() > MAX_PROBED_CANDIDATES {
        Ok(survivors.subrange(0, MAX_PROBED_CANDIDATES as int))
    } else {
        Ok(survivors)
    }
}

/// The head a pick considers. The format disproof runs over the raw
/// list before the head is taken, so format-incompatible decoys ranked
/// first cannot crowd the real show out of the probe slots.
pub fn pick_head(hits: &[BrowseHit], expected: Option<u32>, subtype: Option<&str>) -> (r: Result<
    Vec<BrowseHit>,
    AniError,
>)
    ensures
        match r {
            Ok(head) => pick_head_spec(
                hits@,
                expected,
                match subtype {
                    Some(t) => Some(t@),
                    None => None,
                },
            ) == Ok::<Seq<BrowseHit>, AniError>(head@),
            Err(e) => pick_head_spec(
                hits@,
                expected,
                match subtype {
                    Some(t) => Some(t@),
                    None => None,
                },
            ) == Err::<Seq<BrowseHit>, AniError>(e),
        },
{
    if hits.len() == 0 {
        return Err(AniError::NoResults);
    }
    let mut survivors = format_survivors(hits, expected, subtype);
    if survivors.len() == 0 {
        return Err(AniError::NoResults);
    }
    if survivors.len() > MAX_PROBED_CANDIDATES {
        survivors.truncate(MAX_PROBED_CANDIDATES);
    }
    Ok(survivors)
}

/// A pick never probes more than [`MAX_PROBED_CANDIDATES`] candidates,
/// and every one it probes survived the format disproof.
pub proof fn law_the_probe_head_is_bounded(
    hits: Seq<BrowseHit>,
    expected: Option<u32>,
    subtype: Option<Seq<char>>,
)
    ensures
        pick_head_spec(hits, expected, subtype) matches Ok(head) ==> head.len() > 0 && head.len()
            <= MAX_PROBED_CANDIDATES && forall|i: int|
            0 <= i < head.len() ==> format_compatible_spec(
                kind_view(#[trigger] head[i]),
                expected,
                subtype,
            ),
{
    lemma_survivors_compatible(hits, expected, subtype);
}

proof fn lemma_survivors_compatible(
    hits: Seq<BrowseHit>,
    expected: Option<u32>,
    subtype: Option<Seq<char>>,
)
    ensures
        forall|i: int|
            0 <= i < format_survivors_spec(hits, expected, subtype).len() ==> format_compatible_spec(
                kind_view(#[trigger] format_survivors_spec(hits, expected, subtype)[i]),
                expected,
                subtype,
            ),
    decreases hits.len(),
{
    if hits.len() > 0 {
        lemma_survivors_compatible(hits.drop_last(), expected, subtype);
        let rest = format_survivors_spec(hits.drop_last(), expected, subtype);
        let out = format_survivors_spec(hits, expected, subtype);
        assert forall|i: int| 0 <= i < out.len() implies format_compatible_spec(
            kind_view(#[trigger] out[i]),
            expected,
            subtype,
        ) by {
            if i < rest.len() {
                assert(out[i] == rest[i]);
            }
        }
    }
}

} // verus!
