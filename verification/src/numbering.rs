//! Per-entry versus provider episode numbering.
//!
//! The provider keeps a franchise's cumulative count on continuation
//! cours (the fourth part of a long show lists episodes 41 and 42),
//! while Kitsu, and so every number the UI can send, restarts each
//! entry at 1. A listing row's *display identity* is its integer
//! display tag when it carries one, its integer slot otherwise; a row
//! whose display tag is not an integer ("41.5", a recap) is an *extra*.
//! The offset between the two numbering spaces is derived from the
//! regular rows' identities, and every episode number crossing the
//! boundary is translated by it.

use vstd::prelude::*;
use crate::text::{
    all_digits, decimal, is_ascii_digit, is_digit, lemma_decimal, lemma_decimal_no_dot,
    lemma_parse_decimal, lemma_trim_noop, parse_u32, parse_u32_spec, push_char, push_str,
    to_owned_string, trim_spec, u32_to_string, unsigned_body,
};

verus! {

/// One row of the provider's episode listing.
#[derive(Debug, Clone, PartialEq, Eq)]
pub struct EpisodeRef {
    /// The provider's episode id.
    pub id: u64,
    /// The integer slot the row occupies in the listing.
    pub number: u32,
    /// The provider's display tag, when it shows one.
    pub number2: Option<String>,
}

// ---------------------------------------------------------------------
// Fractional tags
// ---------------------------------------------------------------------

/// `i` is the position of the first `.` in `s`.
pub open spec fn is_first_dot(s: Seq<char>, i: int) -> bool {
    0 <= i < s.len() && s[i] == '.' && forall|j: int| 0 <= j < i ==> s[j] != '.'
}

/// A fractional tag `<integer>.<digits>`: the integer before the first
/// `.` as `str::parse::<u32>` reads it, and the non-empty run of digits
/// after it.
pub open spec fn split_fraction_spec(s: Seq<char>) -> Option<(u32, Seq<char>)> {
    if exists|i: int| is_first_dot(s, i) {
        let i = choose|i: int| is_first_dot(s, i);
        let frac = s.subrange(i + 1, s.len() as int);
        match parse_u32_spec(s.subrange(0, i)) {
            Some(n) => if frac.len() > 0 && all_digits(frac) {
                Some((n, frac))
            } else {
                None
            },
            None => None,
        }
    } else {
        None
    }
}

/// `n` with `frac` after a decimal point.
pub open spec fn fraction_text(n: nat, frac: Seq<char>) -> Seq<char> {
    decimal(n).push('.') + frac
}

/// `n + offset`, saturating at `u32::MAX`.
pub open spec fn sat_add(n: u32, offset: u32) -> u32 {
    if n + offset > u32::MAX {
        u32::MAX
    } else {
        (n + offset) as u32
    }
}

/// A per-entry fractional tag in provider numbering: its integer part
/// shifted up by `offset`. Anything that is not a fractional tag, and
/// every tag at offset zero, passes through unchanged.
pub open spec fn provider_fraction_spec(tag: Seq<char>, offset: u32) -> Seq<char> {
    match split_fraction_spec(tag) {
        Some((n, frac)) => if offset > 0 {
            fraction_text(sat_add(n, offset) as nat, frac)
        } else {
            tag
        },
        None => tag,
    }
}

/// A provider fractional tag in per-entry numbering: its integer part
/// shifted down by `offset`. A tag whose integer part is at or below
/// the offset is not described by it and passes through unchanged, as
/// does anything that is not a fractional tag.
pub open spec fn per_entry_fraction_spec(tag: Seq<char>, offset: u32) -> Seq<char> {
    match split_fraction_spec(tag) {
        Some((n, frac)) => if offset > 0 && n > offset {
            fraction_text((n - offset) as nat, frac)
        } else {
            tag
        },
        None => tag,
    }
}

/// Only one position can be the first `.`.
pub proof fn lemma_first_dot_unique(s: Seq<char>, i: int, j: int)
    requires
        is_first_dot(s, i),
        is_first_dot(s, j),
    ensures
        i == j,
{
    if i < j {
        assert(s[i] != '.');
    } else if j < i {
        assert(s[j] != '.');
    }
}

/// A canonical fractional text splits back into its parts.
pub proof fn lemma_split_fraction_text(n: u32, frac: Seq<char>)
    requires
        frac.len() > 0,
        all_digits(frac),
    ensures
        split_fraction_spec(fraction_text(n as nat, frac)) == Some((n, frac)),
        parse_u32_spec(fraction_text(n as nat, frac)) is None,
        trim_spec(fraction_text(n as nat, frac)) == fraction_text(n as nat, frac),
{
    let d = decimal(n as nat);
    let s = fraction_text(n as nat, frac);
    let l = d.len() as int;
    lemma_decimal(n as nat);
    lemma_decimal_no_dot(n as nat);
    lemma_parse_decimal(n);
    assert(s[l] == '.');
    assert forall|j: int| 0 <= j < l implies s[j] != '.' by {
        assert(s[j] == d[j]);
    }
    assert(is_first_dot(s, l));
    let i = choose|i: int| is_first_dot(s, i);
    lemma_first_dot_unique(s, i, l);
    assert(s.subrange(0, l) =~= d);
    assert(s.subrange(l + 1, s.len() as int) =~= frac);
    // Not a plain integer: the dot is no digit.
    assert(s[0] == d[0]);
    assert(unsigned_body(s) =~= s);
    assert(!is_digit(s[l]));
    // No whitespace at either end.
    assert(is_digit(s[s.len() - 1])) by {
        assert(s[s.len() - 1] == frac[frac.len() - 1]);
    }
    assert(is_digit(s[0]));
    lemma_trim_noop(s);
}

/// The exec counterpart of [`split_fraction_spec`].
pub fn split_fraction(s: &str) -> (r: Option<(u32, String)>)
    ensures
        match r {
            Some((n, frac)) => split_fraction_spec(s@) == Some((n, frac@)),
            None => split_fraction_spec(s@) is None,
        },
{
    let len = s.unicode_len();
    let mut i: usize = 0;
    while i < len && s.get_char(i) != '.'
        invariant
            i <= len,
            len == s@.len(),
            forall|j: int| 0 <= j < i ==> s@[j] != '.',
        decreases len - i,
    {
        i = i + 1;
    }
    if i == len {
        proof {
            assert forall|k: int| !is_first_dot(s@, k) by {
                if 0 <= k < len {
                    assert(s@[k] != '.');
                }
            }
        }
        return None;
    }
    proof {
        assert(is_first_dot(s@, i as int));
        let c = choose|k: int| is_first_dot(s@, k);
        lemma_first_dot_unique(s@, c, i as int);
    }
    let int_part = s.substring_char(0, i);
    let frac = s.substring_char(i + 1, len);
    let n = match parse_u32(int_part) {
        Some(n) => n,
        None => return None,
    };
    if frac.unicode_len() == 0 || !all_ascii_digits(frac) {
        return None;
    }
    Some((n, to_owned_string(frac)))
}

/// Whether every character of `s` is an ASCII digit.
pub fn all_ascii_digits(s: &str) -> (r: bool)
    ensures
        r == all_digits(s@),
{
    let len = s.unicode_len();
    let mut k: usize = 0;
    while k < len
        invariant
            k <= len,
            len == s@.len(),
            forall|q: int| 0 <= q < k ==> is_digit(s@[q]),
        decreases len - k,
    {
        if !is_ascii_digit(s.get_char(k)) {
            proof {
                assert(!is_digit(s@[k as int]));
            }
            return false;
        }
        k = k + 1;
    }
    true
}

/// `fraction_text` assembled in a `String`.
pub fn make_fraction_text(n: u32, frac: &str) -> (s: String)
    ensures
        s@ == fraction_text(n as nat, frac@),
{
    let mut s = u32_to_string(n);
    push_char(&mut s, '.');
    push_str(&mut s, frac);
    s
}

/// The exec counterpart of [`provider_fraction_spec`].
pub fn provider_fraction(tag: &str, offset: u32) -> (r: String)
    ensures
        r@ == provider_fraction_spec(tag@, offset),
{
    match split_fraction(tag) {
        Some((n, frac)) => {
            if offset > 0 {
                make_fraction_text(n.saturating_add(offset), frac.as_str())
            } else {
                to_owned_string(tag)
            }
        },
        None => to_owned_string(tag),
    }
}

/// The exec counterpart of [`per_entry_fraction_spec`].
pub fn per_entry_fraction(tag: &str, offset: u32) -> (r: String)
    ensures
        r@ == per_entry_fraction_spec(tag@, offset),
{
    match split_fraction(tag) {
        Some((n, frac)) => {
            if offset > 0 && n > offset {
                make_fraction_text(n - offset, frac.as_str())
            } else {
                to_owned_string(tag)
            }
        },
        None => to_owned_string(tag),
    }
}

/// A provider fraction above the offset translates to per-entry form
/// and back to exactly itself.
pub proof fn law_fraction_translation_round_trips(n: u32, frac: Seq<char>, offset: u32)
    requires
        n >= 1,
        n + offset <= u32::MAX,
        frac.len() > 0,
        all_digits(frac),
    ensures
        per_entry_fraction_spec(fraction_text((n + offset) as nat, frac), offset)
            == fraction_text(n as nat, frac),
        provider_fraction_spec(fraction_text(n as nat, frac), offset)
            == fraction_text((n + offset) as nat, frac),
{
    lemma_split_fraction_text((n + offset) as u32, frac);
    lemma_split_fraction_text(n, frac);
}

// ---------------------------------------------------------------------
// Display identities
// ---------------------------------------------------------------------

/// A row's integer display identity; `None` for an extra.
pub open spec fn regular_value(e: EpisodeRef) -> Option<u32> {
    match e.number2 {
        None => Some(e.number),
        Some(t) => parse_u32_spec(t@),
    }
}

/// A row's fractional (non-integer) display tag; `None` for a regular
/// row.
pub open spec fn extra_tag(e: EpisodeRef) -> Option<Seq<char>> {
    match e.number2 {
        Some(t) => if parse_u32_spec(t@) is None {
            Some(t@)
        } else {
            None
        },
        None => None,
    }
}

/// The smaller of two optional identities, ignoring absence.
pub open spec fn opt_min(a: Option<u32>, b: Option<u32>) -> Option<u32> {
    match (a, b) {
        (Some(x), Some(y)) => Some(if x <= y { x } else { y }),
        (Some(x), None) => Some(x),
        (None, y) => y,
    }
}

/// The larger of two optional identities, ignoring absence.
pub open spec fn opt_max(a: Option<u32>, b: Option<u32>) -> Option<u32> {
    match (a, b) {
        (Some(x), Some(y)) => Some(if x >= y { x } else { y }),
        (Some(x), None) => Some(x),
        (None, y) => y,
    }
}

/// The lowest regular identity of a listing.
pub open spec fn min_regular(s: Seq<EpisodeRef>) -> Option<u32>
    decreases s.len(),
{
    if s.len() == 0 {
        None
    } else {
        opt_min(min_regular(s.drop_last()), regular_value(s.last()))
    }
}

/// The highest regular identity of a listing.
pub open spec fn max_regular(s: Seq<EpisodeRef>) -> Option<u32>
    decreases s.len(),
{
    if s.len() == 0 {
        None
    } else {
        opt_max(max_regular(s.drop_last()), regular_value(s.last()))
    }
}

/// How many rows of a listing are regular.
pub open spec fn regular_count_spec(s: Seq<EpisodeRef>) -> nat
    decreases s.len(),
{
    if s.len() == 0 {
        0
    } else {
        regular_count_spec(s.drop_last()) + if regular_value(s.last()) is Some {
            1nat
        } else {
            0nat
        }
    }
}

/// The fractional display tags of a listing, verbatim, in listing order.
pub open spec fn raw_extra_tags(s: Seq<EpisodeRef>) -> Seq<Seq<char>>
    decreases s.len(),
{
    if s.len() == 0 {
        Seq::empty()
    } else {
        match extra_tag(s.last()) {
            Some(t) => raw_extra_tags(s.drop_last()).push(t),
            None => raw_extra_tags(s.drop_last()),
        }
    }
}

/// The shift between provider and per-entry numbering: a listing whose
/// lowest display identity is above 1 is a continuation and shifts by
/// that identity minus one; otherwise nothing shifts.
pub open spec fn offset_spec(s: Seq<EpisodeRef>) -> u32 {
    match min_regular(s) {
        Some(m) => if m > 1 {
            (m - 1) as u32
        } else {
            0
        },
        None => 0,
    }
}

/// The highest display identity in per-entry numbering; `None` for a
/// listing with no regular row.
pub open spec fn cap_spec(s: Seq<EpisodeRef>) -> Option<u32> {
    match max_regular(s) {
        Some(m) => Some((m - offset_spec(s)) as u32),
        None => None,
    }
}

/// The fractional display tags in per-entry numbering, listing order.
pub open spec fn extras_spec(s: Seq<EpisodeRef>) -> Seq<Seq<char>> {
    raw_extra_tags(s).map_values(|t: Seq<char>| per_entry_fraction_spec(t, offset_spec(s)))
}

/// Every row is exactly one of regular or extra.
pub proof fn lemma_row_kind(e: EpisodeRef)
    ensures
        (regular_value(e) is Some) != (extra_tag(e) is Some),
{
}

/// Both extremes exist exactly when a regular row does, and they bound
/// every regular identity.
pub proof fn lemma_extremes(s: Seq<EpisodeRef>)
    ensures
        (min_regular(s) is Some) == (max_regular(s) is Some),
        (min_regular(s) is Some) == (regular_count_spec(s) > 0),
        min_regular(s) matches Some(lo) ==> max_regular(s) matches Some(hi) && lo <= hi,
        forall|i: int|
            0 <= i < s.len() && (#[trigger] regular_value(s[i])) is Some ==> min_regular(s) is Some
                && max_regular(s) is Some && min_regular(s)->0 <= regular_value(s[i])->0
                <= max_regular(s)->0,
    decreases s.len(),
{
    if s.len() > 0 {
        lemma_extremes(s.drop_last());
        assert forall|i: int|
            0 <= i < s.len() && (#[trigger] regular_value(s[i])) is Some implies min_regular(s) is Some
                && max_regular(s) is Some && min_regular(s)->0 <= regular_value(s[i])->0
                <= max_regular(s)->0 by {
            let d = s.drop_last();
            assert(min_regular(s) == opt_min(min_regular(d), regular_value(s.last())));
            assert(max_regular(s) == opt_max(max_regular(d), regular_value(s.last())));
            if i < s.len() - 1 {
                assert(s[i] == d[i]);
                assert(regular_value(d[i]) is Some);
                assert(min_regular(d)->0 <= regular_value(d[i])->0 <= max_regular(d)->0);
            } else {
                assert(s[i] == s.last());
            }
        }
    }
}

/// A regular row's identity.
pub fn regular_identity(e: &EpisodeRef) -> (r: Option<u32>)
    ensures
        r == regular_value(*e),
{
    match &e.number2 {
        None => Some(e.number),
        Some(t) => parse_u32(t.as_str()),
    }
}

/// The lowest regular identity of a listing.
pub fn lowest_identity(episodes: &[EpisodeRef]) -> (r: Option<u32>)
    ensures
        r == min_regular(episodes@),
{
    let mut best: Option<u32> = None;
    let mut i: usize = 0;
    while i < episodes.len()
        invariant
            i <= episodes@.len(),
            best == min_regular(episodes@.subrange(0, i as int)),
        decreases episodes@.len() - i,
    {
        let v = regular_identity(&episodes[i]);
        proof {
            let next = episodes@.subrange(0, i + 1);
            assert(next.drop_last() =~= episodes@.subrange(0, i as int));
            assert(next.last() == episodes@[i as int]);
        }
        best = match (best, v) {
            (Some(x), Some(y)) => Some(if x <= y { x } else { y }),
            (Some(x), None) => Some(x),
            (None, y) => y,
        };
        i = i + 1;
    }
    proof {
        assert(episodes@.subrange(0, i as int) =~= episodes@);
    }
    best
}

/// The highest regular identity of a listing.
pub fn highest_identity(episodes: &[EpisodeRef]) -> (r: Option<u32>)
    ensures
        r == max_regular(episodes@),
{
    let mut best: Option<u32> = None;
    let mut i: usize = 0;
    while i < episodes.len()
        invariant
            i <= episodes@.len(),
            best == max_regular(episodes@.subrange(0, i as int)),
        decreases episodes@.len() - i,
    {
        let v = regular_identity(&episodes[i]);
        proof {
            let next = episodes@.subrange(0, i + 1);
            assert(next.drop_last() =~= episodes@.subrange(0, i as int));
            assert(next.last() == episodes@[i as int]);
        }
        best = match (best, v) {
            (Some(x), Some(y)) => Some(if x >= y { x } else { y }),
            (Some(x), None) => Some(x),
            (None, y) => y,
        };
        i = i + 1;
    }
    proof {
        assert(episodes@.subrange(0, i as int) =~= episodes@);
    }
    best
}

/// The shift between the provider's episode numbers and the per-entry
/// numbers every caller requests.
pub fn numbering_offset(episodes: &[EpisodeRef]) -> (r: u32)
    ensures
        r == offset_spec(episodes@),
{
    match lowest_identity(episodes) {
        Some(first) => if first > 1 {
            first - 1
        } else {
            0
        },
        None => 0,
    }
}

/// The entry's highest listed display identity in per-entry numbering:
/// what availability caps report.
pub fn kitsu_episode_cap(episodes: &[EpisodeRef]) -> (r: Option<u32>)
    ensures
        r == cap_spec(episodes@),
{
    proof {
        lemma_extremes(episodes@);
    }
    let offset = numbering_offset(episodes);
    match highest_identity(episodes) {
        Some(m) => Some(m - offset),
        None => None,
    }
}

/// How many rows of the listing are regular episodes.
pub fn regular_episode_count(episodes: &[EpisodeRef]) -> (r: usize)
    ensures
        r as nat == regular_count_spec(episodes@),
{
    let mut count: usize = 0;
    let mut i: usize = 0;
    while i < episodes.len()
        invariant
            i <= episodes@.len(),
            count as nat == regular_count_spec(episodes@.subrange(0, i as int)),
            count <= i,
        decreases episodes@.len() - i,
    {
        proof {
            let next = episodes@.subrange(0, i + 1);
            assert(next.drop_last() =~= episodes@.subrange(0, i as int));
            assert(next.last() == episodes@[i as int]);
        }
        if regular_identity(&episodes[i]).is_some() {
            count = count + 1;
        }
        i = i + 1;
    }
    proof {
        assert(episodes@.subrange(0, i as int) =~= episodes@);
    }
    count
}

/// The provider's fractional display tags in per-entry numbering, in
/// listing order: what availability advertises as extra episodes.
pub fn extra_episode_tags(episodes: &[EpisodeRef]) -> (r: Vec<String>)
    ensures
        r.deep_view() == extras_spec(episodes@),
{
    let offset = numbering_offset(episodes);
    let ghost raw = raw_extra_tags(episodes@);
    let mut out: Vec<String> = Vec::new();
    let mut i: usize = 0;
    while i < episodes.len()
        invariant
            i <= episodes@.len(),
            offset == offset_spec(episodes@),
            out.deep_view() =~= raw_extra_tags(episodes@.subrange(0, i as int)).map_values(
                |t: Seq<char>| per_entry_fraction_spec(t, offset),
            ),
        decreases episodes@.len() - i,
    {
        proof {
            let next = episodes@.subrange(0, i + 1);
            assert(next.drop_last() =~= episodes@.subrange(0, i as int));
            assert(next.last() == episodes@[i as int]);
        }
        let ghost before = out.deep_view();
        match &episodes[i].number2 {
            Some(t) => {
                if parse_u32(t.as_str()).is_none() {
                    let translated = per_entry_fraction(t.as_str(), offset);
                    out.push(translated);
                    proof {
                        assert(out.deep_view() =~= before.push(
                            per_entry_fraction_spec(t@, offset),
                        ));
                    }
                }
            },
            None => {},
        }
        i = i + 1;
    }
    proof {
        assert(episodes@.subrange(0, i as int) =~= episodes@);
    }
    out
}

/// Every row is exactly one of regular or extra: the two views
/// partition any listing.
pub proof fn law_regular_and_extra_rows_partition(s: Seq<EpisodeRef>)
    ensures
        regular_count_spec(s) + extras_spec(s).len() == s.len(),
    decreases s.len(),
{
    lemma_raw_extras_partition(s);
}

proof fn lemma_raw_extras_partition(s: Seq<EpisodeRef>)
    ensures
        regular_count_spec(s) + raw_extra_tags(s).len() == s.len(),
    decreases s.len(),
{
    if s.len() > 0 {
        lemma_raw_extras_partition(s.drop_last());
        lemma_row_kind(s.last());
    }
}

/// Offset and cap over arbitrary listings: the offset is the lowest
/// identity minus one for a continuation and zero otherwise; the cap is
/// the highest identity in per-entry terms, present exactly when a
/// regular row is; the listing's own first episode never collapses
/// below 1 and the cap covers every regular row.
pub proof fn law_offset_and_cap(s: Seq<EpisodeRef>)
    ensures
        (cap_spec(s) is None) == (min_regular(s) is None),
        min_regular(s) matches Some(lo) ==> {
            &&& lo - offset_spec(s) <= 1
            &&& lo >= offset_spec(s)
            &&& cap_spec(s) is Some
            &&& cap_spec(s)->0 >= lo - offset_spec(s)
            &&& cap_spec(s)->0 == max_regular(s)->0 - offset_spec(s)
        },
        min_regular(s) is None ==> offset_spec(s) == 0,
{
    lemma_extremes(s);
}

/// Rows whose tags are fractional never move the offset or the cap.
pub proof fn law_extras_never_move_the_cap(s: Seq<EpisodeRef>, extra: EpisodeRef)
    requires
        extra_tag(extra) is Some,
    ensures
        offset_spec(s.push(extra)) == offset_spec(s),
        cap_spec(s.push(extra)) == cap_spec(s),
{
    assert(s.push(extra).drop_last() =~= s);
    lemma_row_kind(extra);
}

} // verus!
