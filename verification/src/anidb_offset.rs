//! The translation boundary between the two numbering spaces that share
//! the CLI's history file: history rows speak the provider's numbering,
//! every GUI surface counts per-entry like Kitsu. The resolver computes
//! a show's shift once and the offsets store persists it per slug,
//! together with the last watch's (slot, display tag) stamp when the
//! watched row's display differs from its slot.

use vstd::prelude::*;
use crate::numbering::{
    fraction_text, law_fraction_translation_round_trips, lemma_split_fraction_text,
    per_entry_fraction, per_entry_fraction_spec, provider_fraction, provider_fraction_spec,
    sat_add, split_fraction, split_fraction_spec,
};
use crate::text::{
    all_digits, decimal, lemma_decimal, lemma_parse_decimal, lemma_trim_digits, parse_u32,
    parse_u32_spec, str_eq, to_owned_string, trim, trim_spec, u32_to_string,
};

verus! {

/// A per-entry episode number in provider numbering, for history
/// writes. Integers shift up by the offset (saturating); fractional
/// tags take the same translation the resolve uses; anything else
/// passes through (trimmed).
pub open spec fn provider_ep_no_spec(episode: Seq<char>, offset: u32) -> Seq<char> {
    let t = trim_spec(episode);
    match parse_u32_spec(t) {
        Some(n) => decimal(sat_add(n, offset) as nat),
        None => provider_fraction_spec(t, offset),
    }
}

/// A provider episode number in per-entry numbering, for the history
/// read boundary. A number at or below the offset is not described by
/// the stamp and passes through unchanged rather than collapsing.
pub open spec fn kitsu_ep_no_spec(ep_no: Seq<char>, offset: u32) -> Seq<char> {
    let t = trim_spec(ep_no);
    match parse_u32_spec(t) {
        Some(n) => if n > offset {
            decimal((n - offset) as nat)
        } else {
            ep_no
        },
        None => per_entry_fraction_spec(t, offset),
    }
}

/// Kitsu-relative episode to the provider's number.
pub fn provider_ep_no(episode: &str, offset: u32) -> (r: String)
    ensures
        r@ == provider_ep_no_spec(episode@, offset),
{
    let t = trim(episode);
    match parse_u32(t) {
        Some(n) => u32_to_string(n.saturating_add(offset)),
        None => provider_fraction(t, offset),
    }
}

/// The provider's number to Kitsu-relative.
pub fn kitsu_ep_no(ep_no: &str, offset: u32) -> (r: String)
    ensures
        r@ == kitsu_ep_no_spec(ep_no@, offset),
{
    let t = trim(ep_no);
    match parse_u32(t) {
        Some(n) => if n > offset {
            u32_to_string(n - offset)
        } else {
            to_owned_string(ep_no)
        },
        None => per_entry_fraction(t, offset),
    }
}

/// The write and read boundaries are exact inverses over every episode
/// number a play can produce, whatever the stamped offset, as long as
/// the provider number fits in a `u32`.
pub proof fn law_provider_and_kitsu_translation_round_trip(episode: u32, offset: u32)
    requires
        episode >= 1,
        episode + offset <= u32::MAX,
    ensures
        kitsu_ep_no_spec(provider_ep_no_spec(decimal(episode as nat), offset), offset) == decimal(
            episode as nat,
        ),
{
    lemma_decimal(episode as nat);
    lemma_trim_digits(decimal(episode as nat));
    lemma_parse_decimal(episode);
    let p = (episode + offset) as u32;
    lemma_decimal(p as nat);
    lemma_trim_digits(decimal(p as nat));
    lemma_parse_decimal(p);
}

/// Fractional tags round-trip the way integers do.
pub proof fn law_fractional_translation_round_trips(episode: u32, frac: Seq<char>, offset: u32)
    requires
        episode >= 1,
        episode + offset <= u32::MAX,
        frac.len() > 0,
        all_digits(frac),
    ensures
        kitsu_ep_no_spec(provider_ep_no_spec(fraction_text(episode as nat, frac), offset), offset)
            == fraction_text(episode as nat, frac),
{
    lemma_split_fraction_text(episode, frac);
    lemma_split_fraction_text((episode + offset) as u32, frac);
    law_fraction_translation_round_trips(episode, frac, offset);
}

/// At offset zero both translations leave a canonical number as it is.
pub proof fn law_translation_is_identity_at_offset_zero(n: u32)
    ensures
        provider_ep_no_spec(decimal(n as nat), 0) == decimal(n as nat),
        n > 0 ==> kitsu_ep_no_spec(decimal(n as nat), 0) == decimal(n as nat),
{
    lemma_decimal(n as nat);
    lemma_trim_digits(decimal(n as nat));
    lemma_parse_decimal(n);
}

// ---------------------------------------------------------------------
// Display stamps
// ---------------------------------------------------------------------

/// Trailing zeros of a fraction's digits carry no value.
pub open spec fn strip_trailing_zeros(f: Seq<char>) -> Seq<char>
    decreases f.len(),
{
    if f.len() > 0 && f.last() == '0' {
        strip_trailing_zeros(f.drop_last())
    } else {
        f
    }
}

/// The numeric identity of an episode tag: its integer part and its
/// significant fraction digits, when it is a number at all.
pub open spec fn numeric_identity(s: Seq<char>) -> Option<(u32, Seq<char>)> {
    let t = trim_spec(s);
    match parse_u32_spec(t) {
        Some(n) => Some((n, Seq::empty())),
        None => match split_fraction_spec(t) {
            Some((n, f)) => Some((n, strip_trailing_zeros(f))),
            None => None,
        },
    }
}

/// Two episode tags name the same episode: numerically when both are
/// numbers (the frontend normalizes what it sends), verbatim otherwise.
pub open spec fn tag_matches_spec(a: Seq<char>, b: Seq<char>) -> bool {
    match (numeric_identity(a), numeric_identity(b)) {
        (Some(x), Some(y)) => x == y,
        _ => a == b,
    }
}

fn strip_zeros(f: &str) -> (r: &str)
    ensures
        r@ == strip_trailing_zeros(f@),
{
    let mut end = f.unicode_len();
    proof {
        assert(f@.subrange(0, end as int) =~= f@);
    }
    while end > 0 && f.get_char(end - 1) == '0'
        invariant
            end <= f@.len(),
            strip_trailing_zeros(f@) == strip_trailing_zeros(f@.subrange(0, end as int)),
        decreases end,
    {
        proof {
            assert(f@.subrange(0, end as int).drop_last() =~= f@.subrange(0, end - 1));
        }
        end = end - 1;
    }
    f.substring_char(0, end)
}

fn numeric_identity_of(s: &str) -> (r: Option<(u32, String)>)
    ensures
        match r {
            Some((n, f)) => numeric_identity(s@) == Some((n, f@)),
            None => numeric_identity(s@) is None,
        },
{
    let t = trim(s);
    match parse_u32(t) {
        Some(n) => Some((n, String::new())),
        None => match split_fraction(t) {
            Some((n, f)) => {
                let stripped = strip_zeros(f.as_str());
                Some((n, to_owned_string(stripped)))
            },
            None => None,
        },
    }
}

/// Whether two episode tags name the same episode.
pub fn tag_matches(a: &str, b: &str) -> (r: bool)
    ensures
        r == tag_matches_spec(a@, b@),
{
    match (numeric_identity_of(a), numeric_identity_of(b)) {
        (Some((x, fx)), Some((y, fy))) => x == y && str_eq(fx.as_str(), fy.as_str()),
        (Some(_), None) => str_eq(a, b),
        (None, _) => str_eq(a, b),
    }
}

/// The episode number a listing-less writer (mark-watched, cache hit)
/// stores: the provider translation, except when it names the stamped
/// display tag, in which case the CLI-greppable slot is written.
pub open spec fn write_ep_no_spec(
    stamp: Option<(u32, Seq<char>)>,
    episode: Seq<char>,
    offset: u32,
) -> Seq<char> {
    let provider = provider_ep_no_spec(episode, offset);
    match stamp {
        Some((slot, tag)) => if tag_matches_spec(tag, provider) {
            decimal(slot as nat)
        } else {
            provider
        },
        None => provider,
    }
}

/// The per-entry reading of a stored history row: the stamped slot
/// presents as its display tag translated per-entry; everything else
/// takes the plain offset translation.
pub open spec fn read_ep_no_spec(
    stamp: Option<(u32, Seq<char>)>,
    ep_no: Seq<char>,
    offset: u32,
) -> Seq<char> {
    match stamp {
        Some((slot, tag)) => if trim_spec(ep_no) == decimal(slot as nat) {
            kitsu_ep_no_spec(tag, offset)
        } else {
            kitsu_ep_no_spec(ep_no, offset)
        },
        None => kitsu_ep_no_spec(ep_no, offset),
    }
}

/// The ep_no a writer should store for `episode`, given the slug's
/// stamped display (`None` when the slug has no stamp).
pub fn write_ep_no(stamp: Option<(u32, &str)>, episode: &str, offset: u32) -> (r: String)
    ensures
        r@ == write_ep_no_spec(
            match stamp {
                Some((slot, tag)) => Some((slot, tag@)),
                None => None,
            },
            episode@,
            offset,
        ),
{
    let provider = provider_ep_no(episode, offset);
    match stamp {
        Some((slot, tag)) => if tag_matches(tag, provider.as_str()) {
            u32_to_string(slot)
        } else {
            provider
        },
        None => provider,
    }
}

/// The per-entry reading of a stored row `ep_no`, given the slug's
/// offset and stamped display.
pub fn read_ep_no(stamp: Option<(u32, &str)>, ep_no: &str, offset: u32) -> (r: String)
    ensures
        r@ == read_ep_no_spec(
            match stamp {
                Some((slot, tag)) => Some((slot, tag@)),
                None => None,
            },
            ep_no@,
            offset,
        ),
{
    match stamp {
        Some((slot, tag)) => {
            let slot_text = u32_to_string(slot);
            if str_eq(trim(ep_no), slot_text.as_str()) {
                kitsu_ep_no(tag, offset)
            } else {
                kitsu_ep_no(ep_no, offset)
            }
        },
        None => kitsu_ep_no(ep_no, offset),
    }
}

/// A watch written through the stamp reads back as the stamped display
/// tag's per-entry form.
pub proof fn law_stamped_write_reads_back_as_its_display(
    slot: u32,
    tag: Seq<char>,
    episode: Seq<char>,
    offset: u32,
)
    requires
        tag_matches_spec(tag, provider_ep_no_spec(episode, offset)),
    ensures
        read_ep_no_spec(
            Some((slot, tag)),
            write_ep_no_spec(Some((slot, tag)), episode, offset),
            offset,
        ) == kitsu_ep_no_spec(tag, offset),
{
    lemma_decimal(slot as nat);
    lemma_trim_digits(decimal(slot as nat));
}

} // verus!
