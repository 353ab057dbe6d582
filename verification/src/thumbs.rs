//! Episode thumbnails: Kitsu's own where it has one, AniList's
//! streaming-episode thumbnails where it does not.

use vstd::prelude::*;
use std::collections::HashMap;
use crate::text::{push_str, to_owned_string, u32_to_string, decimal};

verus! {

broadcast use vstd::std_specs::hash::group_hash_axioms;

/// A thumbnail as Kitsu serves it.
#[derive(Debug, Clone, PartialEq, Eq)]
pub struct KitsuEpisodeThumbnail {
    /// The original-size image URL; Kitsu sometimes serves `null`.
    pub original: Option<String>,
}

/// One Kitsu episode.
#[derive(Debug, Clone, PartialEq, Eq)]
pub struct KitsuEpisode {
    /// Kitsu's episode id.
    pub id: String,
    /// The episode's title.
    pub canonical_title: Option<String>,
    /// The season it belongs to.
    pub season_number: Option<u32>,
    /// Its absolute number; `None` for some movies and specials.
    pub number: Option<u32>,
    /// Its number within the season.
    pub relative_number: Option<u32>,
    /// Its length in minutes.
    pub length: Option<u32>,
    /// Its synopsis.
    pub synopsis: Option<String>,
    /// Its air date.
    pub airdate: Option<String>,
    /// Its thumbnail.
    pub thumbnail: Option<KitsuEpisodeThumbnail>,
}

/// Whether an episode already shows a thumbnail.
pub open spec fn has_thumb(e: KitsuEpisode) -> bool {
    e.thumbnail matches Some(t) && t.original is Some
}

/// The thumbnail URL an episode shows, if any.
pub open spec fn thumb_of(e: KitsuEpisode) -> Option<Seq<char>> {
    match e.thumbnail {
        Some(t) => match t.original {
            Some(u) => Some(u@),
            None => None,
        },
        None => None,
    }
}

/// The thumbnail an episode shows after the merge: its own when it has
/// one; otherwise AniList's for its number, when both exist.
pub open spec fn merged_thumb(e: KitsuEpisode, anilist: Map<u32, String>) -> Option<Seq<char>> {
    if has_thumb(e) {
        thumb_of(e)
    } else {
        match e.number {
            Some(n) => if anilist.contains_key(n) {
                Some(anilist[n]@)
            } else {
                thumb_of(e)
            },
            None => thumb_of(e),
        }
    }
}

/// Whether the merge leaves an episode exactly as it was: it already
/// shows a thumbnail, has no number, or AniList has nothing for its
/// number.
pub open spec fn passes_through(e: KitsuEpisode, anilist: Map<u32, String>) -> bool {
    has_thumb(e) || match e.number {
        Some(n) => !anilist.contains_key(n),
        None => true,
    }
}

/// Everything about an episode but its thumbnail.
pub open spec fn same_but_thumb(a: KitsuEpisode, b: KitsuEpisode) -> bool {
    &&& a.id@ == b.id@
    &&& a.canonical_title == b.canonical_title
    &&& a.season_number == b.season_number
    &&& a.number == b.number
    &&& a.relative_number == b.relative_number
    &&& a.length == b.length
    &&& a.synopsis == b.synopsis
    &&& a.airdate == b.airdate
}

fn merge_one(ep: KitsuEpisode, anilist: &HashMap<u32, String>) -> (r: KitsuEpisode)
    ensures
        same_but_thumb(r, ep),
        thumb_of(r) == merged_thumb(ep, anilist@),
        passes_through(ep, anilist@) ==> r == ep,
{
    let already = match &ep.thumbnail {
        Some(t) => t.original.is_some(),
        None => false,
    };
    if already {
        return ep;
    }
    match ep.number {
        Some(n) => match anilist.get(&n) {
            Some(url) => KitsuEpisode {
                thumbnail: Some(KitsuEpisodeThumbnail { original: Some(to_owned_string(url.as_str())) }),
                ..ep
            },
            None => ep,
        },
        None => ep,
    }
}

/// Fill the episodes Kitsu serves without a thumbnail (absent, or
/// present with a null original) from AniList's thumbnails by episode
/// number. Episodes without a number, or with a thumbnail already,
/// pass through unchanged; order is kept.
pub fn merge_thumbs(eps: Vec<KitsuEpisode>, anilist: &HashMap<u32, String>) -> (r: Vec<KitsuEpisode>)
    ensures
        r@.len() == eps@.len(),
        forall|i: int|
            0 <= i < eps@.len() ==> same_but_thumb(#[trigger] r@[i], eps@[i]) && thumb_of(r@[i])
                == merged_thumb(eps@[i], anilist@),
        forall|i: int|
            0 <= i < eps@.len() && passes_through(eps@[i], anilist@) ==> #[trigger] r@[i] == eps@[i],
{
    let ghost orig = eps@;
    let mut rest = eps;
    let mut rev: Vec<KitsuEpisode> = Vec::new();
    while rest.len() > 0
        invariant
            rev@.len() + rest@.len() == orig.len(),
            rest@ == orig.subrange(0, rest@.len() as int),
            forall|k: int|
                0 <= k < rev@.len() ==> same_but_thumb(#[trigger] rev@[k], orig[orig.len() - 1 - k])
                    && thumb_of(rev@[k]) == merged_thumb(orig[orig.len() - 1 - k], anilist@),
            forall|k: int|
                0 <= k < rev@.len() && passes_through(orig[orig.len() - 1 - k], anilist@) ==> #[trigger] rev@[k]
                    == orig[orig.len() - 1 - k],
        decreases rest@.len(),
    {
        let ghost before = rest@;
        let ep = rest.pop().unwrap();
        proof {
            assert(ep == before.last());
            assert(rest@ =~= orig.subrange(0, rest@.len() as int));
        }
        let merged = merge_one(ep, anilist);
        rev.push(merged);
    }
    let mut out: Vec<KitsuEpisode> = Vec::new();
    while rev.len() > 0
        invariant
            out@.len() + rev@.len() == orig.len(),
            forall|k: int|
                0 <= k < rev@.len() ==> same_but_thumb(#[trigger] rev@[k], orig[orig.len() - 1 - k])
                    && thumb_of(rev@[k]) == merged_thumb(orig[orig.len() - 1 - k], anilist@),
            forall|k: int|
                0 <= k < out@.len() ==> same_but_thumb(#[trigger] out@[k], orig[k]) && thumb_of(
                    out@[k],
                ) == merged_thumb(orig[k], anilist@),
            forall|k: int|
                0 <= k < rev@.len() && passes_through(orig[orig.len() - 1 - k], anilist@) ==> #[trigger] rev@[k]
                    == orig[orig.len() - 1 - k],
            forall|k: int|
                0 <= k < out@.len() && passes_through(orig[k], anilist@) ==> #[trigger] out@[k] == orig[k],
        decreases rev@.len(),
    {
        let ghost before = rev@;
        let ep = rev.pop().unwrap();
        proof {
            assert(ep == before[before.len() - 1]);
        }
        out.push(ep);
    }
    out
}

/// Whether an AniList lookup can add anything: some numbered episode
/// lacks a thumbnail.
pub open spec fn needs_backfill_spec(eps: Seq<KitsuEpisode>) -> bool {
    exists|i: int| 0 <= i < eps.len() && (#[trigger] eps[i]).number is Some && !has_thumb(eps[i])
}

/// Whether the AniList thumbnail lookup is worth its requests: true
/// exactly when some episode with a number has no thumbnail.
pub fn needs_backfill(eps: &[KitsuEpisode]) -> (r: bool)
    ensures
        r == needs_backfill_spec(eps@),
{
    let mut i: usize = 0;
    while i < eps.len()
        invariant
            i <= eps@.len(),
            forall|k: int| 0 <= k < i ==> !((#[trigger] eps@[k]).number is Some && !has_thumb(eps@[k])),
        decreases eps@.len() - i,
    {
        let shown = match &eps[i].thumbnail {
            Some(t) => t.original.is_some(),
            None => false,
        };
        if eps[i].number.is_some() && !shown {
            return true;
        }
        i = i + 1;
    }
    false
}

/// The merge only ever fills: a thumbnail an episode had is kept, and
/// after a merge with every number covered nothing numbered is left
/// without one.
pub proof fn law_merge_only_fills(e: KitsuEpisode, anilist: Map<u32, String>)
    ensures
        has_thumb(e) ==> merged_thumb(e, anilist) == thumb_of(e),
        e.number matches Some(n) && anilist.contains_key(n) ==> merged_thumb(e, anilist) is Some,
{
}

/// The cache row of a show's AniList thumbnails.
pub open spec fn eps_thumbs_key_spec(kitsu_id: Seq<char>) -> Seq<char> {
    "anilist:eps-thumbs:v1:k"@ + kitsu_id
}

/// The cache row of a show's AniList thumbnails, keyed by Kitsu id.
pub fn anilist_eps_thumbs_key(kitsu_id: &str) -> (r: String)
    ensures
        r@ == eps_thumbs_key_spec(kitsu_id@),
{
    let mut s = to_owned_string("anilist:eps-thumbs:v1:k");
    push_str(&mut s, kitsu_id);
    s
}

/// Different Kitsu ids never share a thumbnail row.
pub proof fn law_thumb_keys_separate_shows(a: Seq<char>, b: Seq<char>)
    requires
        a != b,
    ensures
        eps_thumbs_key_spec(a) != eps_thumbs_key_spec(b),
{
    let p = "anilist:eps-thumbs:v1:k"@;
    if eps_thumbs_key_spec(a) == eps_thumbs_key_spec(b) {
        assert((p + a).subrange(p.len() as int, (p + a).len() as int) =~= a);
        assert((p + b).subrange(p.len() as int, (p + b).len() as int) =~= b);
    }
}

} // verus!
