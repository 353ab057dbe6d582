//! How long an airing-schedule answer stays cached.

use vstd::prelude::*;
use crate::text::{push_str, to_owned_string};

verus! {

/// Cache lifetime of an answer with no upcoming episode, in seconds.
pub const AIRING_TTL_SECS: u64 = 10800;

/// Cache lifetime once the announced air time has passed, in seconds.
pub const AIRING_GRACE_SECS: u64 = 600;

/// The longest an answer with an upcoming episode is cached, in
/// seconds.
pub const AIRING_TTL_MAX_SECS: u64 = 86400;

/// A show's airing schedule.
#[derive(Debug, Clone, Copy, PartialEq, Eq, Structural)]
pub struct AiringStatus {
    /// Episodes aired so far.
    pub aired: Option<u32>,
    /// The next episode's number.
    pub next_episode: Option<u32>,
    /// When the next episode airs, in epoch seconds.
    pub next_airing_at: Option<u64>,
}

impl Default for AiringStatus {
    fn default() -> (s: Self)
        ensures
            s.aired is None,
            s.next_episode is None,
            s.next_airing_at is None,
    {
        AiringStatus { aired: None, next_episode: None, next_airing_at: None }
    }
}

/// The cache lifetime of an answer.
pub open spec fn airing_ttl_spec(next_airing_at: Option<u64>, now_epoch_s: u64) -> u64 {
    match next_airing_at {
        Some(at) => if at <= now_epoch_s {
            AIRING_GRACE_SECS
        } else if at - now_epoch_s + AIRING_GRACE_SECS <= AIRING_TTL_MAX_SECS {
            (at - now_epoch_s + AIRING_GRACE_SECS) as u64
        } else {
            AIRING_TTL_MAX_SECS
        },
        None => AIRING_TTL_SECS,
    }
}

/// How long to cache an answer: until just after the next episode airs
/// (capped at a day); a grace period when that moment has passed; the
/// plain lifetime when nothing is announced.
pub fn airing_ttl_for(next_airing_at: Option<u64>, now_epoch_s: u64) -> (r: u64)
    ensures
        r == airing_ttl_spec(next_airing_at, now_epoch_s),
{
    match next_airing_at {
        Some(at) => if at <= now_epoch_s {
            AIRING_GRACE_SECS
        } else {
            let until = at - now_epoch_s;
            if until <= AIRING_TTL_MAX_SECS - AIRING_GRACE_SECS {
                until + AIRING_GRACE_SECS
            } else {
                AIRING_TTL_MAX_SECS
            }
        },
        None => AIRING_TTL_SECS,
    }
}

/// An answer is never cached past a day, nor for less than the grace
/// period.
pub proof fn law_airing_ttl_is_bounded(next_airing_at: Option<u64>, now_epoch_s: u64)
    ensures
        AIRING_GRACE_SECS <= airing_ttl_spec(next_airing_at, now_epoch_s) <= AIRING_TTL_MAX_SECS,
{
}

/// The cache row of a show's schedule.
pub open spec fn airing_key_spec(kitsu_id: Seq<char>) -> Seq<char> {
    "airing:v2:"@ + kitsu_id
}

/// The cache row of a show's schedule, keyed by Kitsu id.
pub fn airing_key(kitsu_id: &str) -> (r: String)
    ensures
        r@ == airing_key_spec(kitsu_id@),
{
    let mut s = to_owned_string("airing:v2:");
    push_str(&mut s, kitsu_id);
    s
}

/// Whether a schedule is worth asking AniList for: only a show Kitsu
/// maps to AniList or MyAnimeList has one; any other gets the default.
pub fn airing_lookup_needed(anilist: Option<u32>, mal: Option<u32>) -> (r: bool)
    ensures
        r == (anilist is Some || mal is Some),
{
    anilist.is_some() || mal.is_some()
}

} // verus!
