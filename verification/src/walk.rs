//! The resolution walk: search the canonical title, then each fallback,
//! pick within every answered pool, and resolve the requested episode.
//!
//! The provider calls stay with the caller; this module is the walk's
//! decision core. Each answer the caller gets back is an event, and
//! [`walk_step`] says whether the walk goes on (with which flags) or
//! ends with an error; [`walk_finish`] gives the verdict of a walk that
//! ran out of titles. A clean everywhere-searched-nothing-matched miss
//! is the only verdict a caller may persist as absence
//! ([`NativeError::clean_miss`]).

use vstd::prelude::*;
use crate::error::{AniError, is_provider_block_spec};
use crate::numbering::{regular_identity, regular_value, numbering_offset, offset_spec, EpisodeRef};
use crate::text::{decimal, parse_u32, parse_u32_spec, str_eq, to_owned_string, trim, trim_spec,
    u32_to_string};

verus! {

/// A fully resolved native play: what the orchestrator needs to open a
/// session, stamp caches, and write history.
#[derive(Debug, Clone, PartialEq, Eq)]
pub struct NativeResolved {
    /// The provider slug.
    pub slug: String,
    /// The provider's display title for the show.
    pub title: String,
    /// The master-playlist URL the embed page carried.
    pub master_url: String,
    /// Highest per-entry episode number the provider lists.
    pub episode_cap: Option<u32>,
    /// The shift between provider and per-entry numbering.
    pub numbering_offset: u32,
    /// The listing's fractional display tags, per-entry numbering.
    pub extra_tags: Vec<String>,
    /// The matched row's slot.
    pub resolved_slot: u32,
    /// The matched row's display tag, when it differs from the slot.
    pub resolved_tag: Option<String>,
}

/// A failed resolution: the error plus whether the verdict is a clean
/// picker miss the caller may persist.
#[derive(Debug, Clone, PartialEq, Eq)]
pub struct NativeError {
    /// The error to surface.
    pub error: AniError,
    /// True only when every search completed cleanly and no candidate
    /// survived: the one shape that proves absence rather than weather.
    pub clean_miss: bool,
}

/// What a resolution outcome means to the scraper breaker.
#[derive(Debug, Clone, Copy, PartialEq, Eq, Structural)]
pub enum ScrapeOutcome {
    /// The provider answered.
    Success,
    /// Weather: transport failure, refusal, timeout.
    Failure,
    /// The provider asked clients to pause, for this many seconds when
    /// it said.
    RateLimited { retry_after: Option<u64> },
}

/// The breaker's reading of an error outcome.
pub open spec fn breaker_error_spec(ne: NativeError) -> ScrapeOutcome {
    if ne.clean_miss {
        ScrapeOutcome::Success
    } else {
        match ne.error {
            AniError::NoResults => ScrapeOutcome::Success,
            AniError::RateLimited { retry_after_secs } => ScrapeOutcome::RateLimited {
                retry_after: retry_after_secs,
            },
            AniError::Upstream { status } => if status == 429 {
                ScrapeOutcome::RateLimited { retry_after: None }
            } else {
                ScrapeOutcome::Failure
            },
            _ => ScrapeOutcome::Failure,
        }
    }
}

/// The breaker's reading of a resolution outcome.
pub open spec fn breaker_outcome_spec(native: Result<NativeResolved, NativeError>) -> ScrapeOutcome {
    match native {
        Ok(_) => ScrapeOutcome::Success,
        Err(ne) => breaker_error_spec(ne),
    }
}

/// What a resolution outcome means to the scraper breaker. The
/// provider answering is health whatever the answer was (every
/// `NoResults` is an answered verdict); weather is distress; an HTTP
/// 429 is a hintless rate limit.
pub fn breaker_outcome(native: &Result<NativeResolved, NativeError>) -> (r: ScrapeOutcome)
    ensures
        r == breaker_outcome_spec(*native),
{
    match native {
        Ok(_) => ScrapeOutcome::Success,
        Err(ne) => {
            if ne.clean_miss {
                return ScrapeOutcome::Success;
            }
            match &ne.error {
                AniError::NoResults => ScrapeOutcome::Success,
                AniError::RateLimited { retry_after_secs } => ScrapeOutcome::RateLimited {
                    retry_after: *retry_after_secs,
                },
                AniError::Upstream { status } => if *status == 429 {
                    ScrapeOutcome::RateLimited { retry_after: None }
                } else {
                    ScrapeOutcome::Failure
                },
                _ => ScrapeOutcome::Failure,
            }
        },
    }
}

/// A persistable clean miss is health to the breaker, and so is any
/// answered `NoResults`; a rate limit is never recorded as health.
pub proof fn law_answered_verdicts_are_breaker_health(ne: NativeError)
    ensures
        ne.clean_miss ==> breaker_error_spec(ne) == ScrapeOutcome::Success,
        ne.error == AniError::NoResults ==> breaker_error_spec(ne) == ScrapeOutcome::Success,
        !ne.clean_miss && (ne.error is RateLimited || ne.error == (AniError::Upstream {
            status: 429,
        })) ==> breaker_error_spec(ne) is RateLimited,
{
}

/// Only an answer is health. A resolution that succeeded, a persistable
/// clean miss, or an answered `NoResults` reads `Success`; otherwise a
/// rate limit (in band, or an HTTP 429) reads `RateLimited` with the
/// hint it carried; every other failure (a timeout, a network error,
/// any other refusal or transport fault) is weather and reads `Failure`.
pub proof fn law_only_an_answer_is_breaker_health(ok: NativeResolved, ne: NativeError)
    ensures
        breaker_outcome_spec(Ok(ok)) == ScrapeOutcome::Success,
        ne.clean_miss ==> breaker_outcome_spec(Err(ne)) == ScrapeOutcome::Success,
        !ne.clean_miss ==> (breaker_outcome_spec(Err(ne)) == ScrapeOutcome::Success <==> ne.error
            == AniError::NoResults),
        !ne.clean_miss ==> (breaker_outcome_spec(Err(ne)) is RateLimited <==> (ne.error is RateLimited
            || ne.error == (AniError::Upstream { status: 429 }))),
        !ne.clean_miss && ne.error is RateLimited ==> breaker_outcome_spec(Err(ne)) == (
        ScrapeOutcome::RateLimited { retry_after: ne.error->retry_after_secs }),
        !ne.clean_miss && ne.error == (AniError::Upstream { status: 429 }) ==> breaker_outcome_spec(
            Err(ne),
        ) == (ScrapeOutcome::RateLimited { retry_after: None }),
        !ne.clean_miss && ne.error != AniError::NoResults && !(ne.error is RateLimited) && ne.error
            != (AniError::Upstream { status: 429 }) ==> breaker_outcome_spec(Err(ne))
            == ScrapeOutcome::Failure,
{
}

// ---------------------------------------------------------------------
// The episode chain
// ---------------------------------------------------------------------

/// How the walk treats a failed episode chain after a successful pick.
#[derive(Debug, Clone, PartialEq, Eq)]
pub enum ChainOutcome {
    /// The failure ends the walk as it is.
    Stop(NativeError),
    /// An answered dead end: the show matched but the episode or mode
    /// is not there; the next alias may still carry it.
    DeadEnd,
    /// Weather: nothing was learned.
    Transient,
}

/// The classification of a chain failure.
pub open spec fn classify_chain_spec(ne: NativeError) -> ChainOutcome {
    if is_provider_block_spec(ne.error) || ne.error == AniError::GateRefused {
        ChainOutcome::Stop(ne)
    } else if ne.error == AniError::NoResults || ne.error is Upstream {
        ChainOutcome::DeadEnd
    } else {
        ChainOutcome::Transient
    }
}

/// Classify a failed episode chain: a block or an admission refusal stops
/// the walk, an answered miss is a dead end, anything else is weather.
pub fn classify_chain_failure(ne: NativeError) -> (r: ChainOutcome)
    ensures
        r == classify_chain_spec(ne),
{
    let stops = ne.error.is_provider_block() || match &ne.error {
        AniError::GateRefused => true,
        _ => false,
    };
    if stops {
        return ChainOutcome::Stop(ne);
    }
    match &ne.error {
        AniError::NoResults => ChainOutcome::DeadEnd,
        AniError::Upstream { .. } => ChainOutcome::DeadEnd,
        _ => ChainOutcome::Transient,
    }
}

/// The display identity an episode request names after the offset: an
/// integer request shifted into provider numbering (saturating), or
/// `None` for a non-integer request.
pub open spec fn requested_identity(episode: Seq<char>, offset: u32) -> Option<u32> {
    match parse_u32_spec(trim_spec(episode)) {
        Some(n) => Some(if n + offset > u32::MAX {
            u32::MAX
        } else {
            (n + offset) as u32
        }),
        None => None,
    }
}

/// Whether a listing row answers an episode request: an integer
/// request matches the row's display identity through the offset; any
/// other request matches the row's display tag verbatim.
pub open spec fn row_answers(e: EpisodeRef, episode: Seq<char>, offset: u32) -> bool {
    match requested_identity(episode, offset) {
        Some(n) => regular_value(e) == Some(n),
        None => match e.number2 {
            Some(t) => t@ == trim_spec(episode),
            None => false,
        },
    }
}

/// `i` is the first row answering the request.
pub open spec fn is_first_answer(
    episodes: Seq<EpisodeRef>,
    episode: Seq<char>,
    offset: u32,
    i: int,
) -> bool {
    &&& 0 <= i < episodes.len()
    &&& row_answers(episodes[i], episode, offset)
    &&& forall|j: int| 0 <= j < i ==> !row_answers(#[trigger] episodes[j], episode, offset)
}

/// The row a request resolves to, the listing's own offset applied.
pub open spec fn find_episode_spec(episodes: Seq<EpisodeRef>, episode: Seq<char>) -> Option<int> {
    let offset = offset_spec(episodes);
    if exists|i: int| is_first_answer(episodes, episode, offset, i) {
        Some(choose|i: int| is_first_answer(episodes, episode, offset, i))
    } else {
        None
    }
}

/// The listing row a per-entry episode request names: for an integer
/// request the first row whose display identity is the request shifted
/// by the listing's offset (so a recap sitting in the slot is skipped);
/// for any other request the first row whose display tag is the
/// request, trimmed. `None` is the chain's dead end.
pub fn find_episode(episodes: &[EpisodeRef], episode: &str) -> (r: Option<usize>)
    ensures
        match r {
            Some(i) => find_episode_spec(episodes@, episode@) == Some(i as int),
            None => find_episode_spec(episodes@, episode@) is None,
        },
{
    let offset = numbering_offset(episodes);
    let wanted = trim(episode);
    let target: Option<u32> = match parse_u32(wanted) {
        Some(n) => Some(n.saturating_add(offset)),
        None => None,
    };
    let mut i: usize = 0;
    while i < episodes.len()
        invariant
            i <= episodes@.len(),
            offset == offset_spec(episodes@),
            wanted@ == trim_spec(episode@),
            target == requested_identity(episode@, offset),
            forall|j: int| 0 <= j < i ==> !row_answers(#[trigger] episodes@[j], episode@, offset),
        decreases episodes@.len() - i,
    {
        let hit = match target {
            Some(n) => match regular_identity(&episodes[i]) {
                Some(v) => v == n,
                None => false,
            },
            None => match &episodes[i].number2 {
                Some(t) => str_eq(t.as_str(), wanted),
                None => false,
            },
        };
        if hit {
            proof {
                assert(is_first_answer(episodes@, episode@, offset, i as int));
                let w = choose|w: int| is_first_answer(episodes@, episode@, offset, w);
                if w < i {
                    assert(!row_answers(episodes@[w], episode@, offset));
                }
                if i < w {
                    assert(!row_answers(episodes@[i as int], episode@, offset));
                }
            }
            return Some(i);
        }
        i = i + 1;
    }
    proof {
        assert forall|w: int| !is_first_answer(episodes@, episode@, offset, w) by {
            if 0 <= w < episodes@.len() {
                assert(!row_answers(episodes@[w], episode@, offset));
            }
        }
    }
    None
}

/// The display tag stamped beside a matched row: its tag when the tag
/// is not just the slot's own number.
pub open spec fn resolved_tag_spec(e: EpisodeRef) -> Option<Seq<char>> {
    match e.number2 {
        Some(t) => if t@ == decimal(e.number as nat) {
            None
        } else {
            Some(t@)
        },
        None => None,
    }
}

/// The display tag stamped beside a matched row, when it differs from
/// the slot.
pub fn resolved_tag(e: &EpisodeRef) -> (r: Option<String>)
    ensures
        match r {
            Some(t) => resolved_tag_spec(*e) == Some(t@),
            None => resolved_tag_spec(*e) is None,
        },
{
    match &e.number2 {
        Some(t) => {
            let slot = u32_to_string(e.number);
            if str_eq(t.as_str(), slot.as_str()) {
                None
            } else {
                Some(to_owned_string(t.as_str()))
            }
        },
        None => None,
    }
}

// ---------------------------------------------------------------------
// The walk
// ---------------------------------------------------------------------

/// The walk's memory across titles.
#[derive(Debug, Clone, Copy, PartialEq, Eq, Structural)]
pub struct WalkState {
    /// Some search answered.
    pub any_search_succeeded: bool,
    /// Some step died in transport or otherwise learned nothing.
    pub any_search_errored: bool,
    /// Some pool or episode chain was an answered dead end.
    pub any_answered_dead_end: bool,
}

/// What one provider call of the walk answered.
#[derive(Debug, Clone, PartialEq, Eq)]
pub enum WalkEvent {
    /// A title's search failed.
    SearchFailed(AniError),
    /// A title's search answered (with hits or without).
    SearchAnswered,
    /// The pick within an answered pool failed.
    PickFailed(AniError),
    /// The picked show's episode chain failed with this error (a chain
    /// failure is never a clean miss: the show matched).
    ChainFailed(AniError),
}

/// The state a walk starts from.
pub open spec fn walk_start_spec() -> WalkState {
    WalkState { any_search_succeeded: false, any_search_errored: false, any_answered_dead_end: false }
}

/// The state a walk starts from.
pub fn walk_start() -> (s: WalkState)
    ensures
        s == walk_start_spec(),
{
    WalkState { any_search_succeeded: false, any_search_errored: false, any_answered_dead_end: false }
}

/// A stop with this error, never a clean miss.
pub open spec fn stop_with(e: AniError) -> NativeError {
    NativeError { error: e, clean_miss: false }
}

/// One step of the walk.
pub open spec fn walk_step_spec(s: WalkState, ev: WalkEvent) -> Result<WalkState, NativeError> {
    match ev {
        WalkEvent::SearchFailed(e) => if e is Upstream || e == AniError::GateRefused {
            Err(stop_with(e))
        } else {
            Ok(WalkState { any_search_errored: true, ..s })
        },
        WalkEvent::SearchAnswered => Ok(WalkState { any_search_succeeded: true, ..s }),
        WalkEvent::PickFailed(e) => if e == AniError::NoResults {
            Ok(s)
        } else if is_provider_block_spec(e) || e == AniError::GateRefused {
            Err(stop_with(e))
        } else if e is Upstream {
            Ok(WalkState { any_answered_dead_end: true, ..s })
        } else {
            Ok(WalkState { any_search_errored: true, ..s })
        },
        WalkEvent::ChainFailed(e) => match classify_chain_spec(stop_with(e)) {
            ChainOutcome::Stop(ne) => Err(ne),
            ChainOutcome::DeadEnd => Ok(WalkState { any_answered_dead_end: true, ..s }),
            ChainOutcome::Transient => Ok(WalkState { any_search_errored: true, ..s }),
        },
    }
}

/// Advance the walk by one answer: `Ok` with the new state when the
/// walk goes on to the next title, `Err` when it ends here. A search
/// refused by the provider or by admission control ends it (every further
/// request deepens the hole); a rejected pool keeps it going (the next
/// alias may carry the show); an all-not-found pool or an answered
/// chain miss is a dead end; anything else is weather.
pub fn walk_step(s: WalkState, ev: WalkEvent) -> (r: Result<WalkState, NativeError>)
    ensures
        r == walk_step_spec(s, ev),
{
    match ev {
        WalkEvent::SearchFailed(e) => {
            let stops = match &e {
                AniError::Upstream { .. } => true,
                AniError::GateRefused => true,
                _ => false,
            };
            if stops {
                Err(NativeError { error: e, clean_miss: false })
            } else {
                Ok(WalkState { any_search_errored: true, ..s })
            }
        },
        WalkEvent::SearchAnswered => Ok(WalkState { any_search_succeeded: true, ..s }),
        WalkEvent::PickFailed(e) => {
            let no_results = match &e {
                AniError::NoResults => true,
                _ => false,
            };
            if no_results {
                return Ok(s);
            }
            let stops = e.is_provider_block() || match &e {
                AniError::GateRefused => true,
                _ => false,
            };
            if stops {
                return Err(NativeError { error: e, clean_miss: false });
            }
            match &e {
                AniError::Upstream { .. } => Ok(WalkState { any_answered_dead_end: true, ..s }),
                _ => Ok(WalkState { any_search_errored: true, ..s }),
            }
        },
        WalkEvent::ChainFailed(e) => match classify_chain_failure(
            NativeError { error: e, clean_miss: false },
        ) {
            ChainOutcome::Stop(ne) => Err(ne),
            ChainOutcome::DeadEnd => Ok(WalkState { any_answered_dead_end: true, ..s }),
            ChainOutcome::Transient => Ok(WalkState { any_search_errored: true, ..s }),
        },
    }
}

/// The verdict of a walk that ran out of titles.
pub open spec fn walk_finish_spec(s: WalkState) -> NativeError {
    if !s.any_search_succeeded || s.any_search_errored {
        NativeError { error: AniError::Network, clean_miss: false }
    } else if s.any_answered_dead_end {
        NativeError { error: AniError::NoResults, clean_miss: false }
    } else {
        NativeError { error: AniError::NoResults, clean_miss: true }
    }
}

/// The verdict of a walk that ran out of titles: weather when no search
/// answered or any step learned nothing; an answered dead end is
/// `NoResults` but never persistable; only an all-clean walk is the
/// clean miss.
pub fn walk_finish(s: WalkState) -> (r: NativeError)
    ensures
        r == walk_finish_spec(s),
{
    if !s.any_search_succeeded || s.any_search_errored {
        NativeError { error: AniError::Network, clean_miss: false }
    } else if s.any_answered_dead_end {
        NativeError { error: AniError::NoResults, clean_miss: false }
    } else {
        NativeError { error: AniError::NoResults, clean_miss: true }
    }
}

/// The walk over a sequence of answers, from the start state: the
/// state after all of them, or the error of the first that ended it.
pub open spec fn walk_fold(events: Seq<WalkEvent>) -> Result<WalkState, NativeError>
    decreases events.len(),
{
    if events.len() == 0 {
        Ok(walk_start_spec())
    } else {
        match walk_fold(events.drop_last()) {
            Ok(s) => walk_step_spec(s, events.last()),
            Err(ne) => Err(ne),
        }
    }
}

/// The error a failed walk ends with.
pub open spec fn walk_outcome_spec(events: Seq<WalkEvent>) -> NativeError {
    match walk_fold(events) {
        Ok(s) => walk_finish_spec(s),
        Err(ne) => ne,
    }
}

/// The error a walk that found nothing ends with, given every answer it
/// got in order.
pub fn walk_outcome(events: &Vec<WalkEvent>) -> (r: NativeError)
    ensures
        r == walk_outcome_spec(events@),
{
    let mut s = walk_start();
    let mut i: usize = 0;
    while i < events.len()
        invariant
            i <= events@.len(),
            walk_fold(events@.subrange(0, i as int)) == Ok::<WalkState, NativeError>(s),
        decreases events@.len() - i,
    {
        proof {
            assert(events@.subrange(0, i + 1).drop_last() =~= events@.subrange(0, i as int));
        }
        let ev = clone_event(&events[i]);
        match walk_step(s, ev) {
            Ok(next) => {
                s = next;
            },
            Err(ne) => {
                proof {
                    lemma_fold_stays_failed(events@, i + 1);
                    assert(events@.subrange(0, events@.len() as int) =~= events@);
                }
                return ne;
            },
        }
        i = i + 1;
    }
    proof {
        assert(events@.subrange(0, i as int) =~= events@);
    }
    walk_finish(s)
}

/// An owned copy of a walk event.
pub fn clone_event(ev: &WalkEvent) -> (r: WalkEvent)
    ensures
        r == *ev,
{
    match ev {
        WalkEvent::SearchFailed(e) => WalkEvent::SearchFailed(e.duplicate()),
        WalkEvent::SearchAnswered => WalkEvent::SearchAnswered,
        WalkEvent::PickFailed(e) => WalkEvent::PickFailed(e.duplicate()),
        WalkEvent::ChainFailed(e) => WalkEvent::ChainFailed(e.duplicate()),
    }
}

/// Once the walk has ended, later answers do not change its error.
proof fn lemma_fold_stays_failed(events: Seq<WalkEvent>, k: int)
    requires
        0 < k <= events.len(),
        walk_fold(events.subrange(0, k)) is Err,
    ensures
        walk_fold(events) == walk_fold(events.subrange(0, k)),
    decreases events.len() - k,
{
    if k == events.len() {
        assert(events.subrange(0, k) =~= events);
    } else {
        assert(events.subrange(0, k + 1).drop_last() =~= events.subrange(0, k));
        lemma_fold_stays_failed(events, k + 1);
    }
}

/// Only the finish of a clean walk is a clean miss, and a clean miss
/// is always `NoResults`.
pub proof fn law_clean_miss_is_an_all_clean_no_results(s: WalkState)
    ensures
        walk_finish_spec(s).clean_miss <==> (s.any_search_succeeded && !s.any_search_errored
            && !s.any_answered_dead_end),
        walk_finish_spec(s).clean_miss ==> walk_finish_spec(s).error == AniError::NoResults,
{
}

/// A walk answer that leaves nothing to doubt: a search that answered,
/// or a pool the picker rejected.
pub open spec fn is_clean_answer(ev: WalkEvent) -> bool {
    ev == WalkEvent::SearchAnswered || ev == WalkEvent::PickFailed(AniError::NoResults)
}

/// A walk whose every answer was clean, with at least one search
/// answered, ends in the persistable clean miss; any other walk never
/// does.
pub proof fn law_only_a_clean_walk_is_a_persistable_miss(events: Seq<WalkEvent>)
    ensures
        walk_outcome_spec(events).clean_miss <==> ((forall|i: int|
            0 <= i < events.len() ==> is_clean_answer(#[trigger] events[i])) && exists|i: int|
            0 <= i < events.len() && events[i] == WalkEvent::SearchAnswered),
{
    lemma_fold_flags(events);
    if walk_outcome_spec(events).clean_miss {
        let s = walk_fold(events)->Ok_0;
        assert(walk_fold(events) is Ok);
        assert(s.any_search_succeeded && !s.any_search_errored && !s.any_answered_dead_end);
    }
}

/// What the fold's flags record about the answers it consumed.
proof fn lemma_fold_flags(events: Seq<WalkEvent>)
    ensures
        walk_fold(events) matches Ok(s) ==> {
            &&& s.any_search_succeeded == exists|i: int|
                0 <= i < events.len() && events[i] == WalkEvent::SearchAnswered
            &&& (!s.any_search_errored && !s.any_answered_dead_end) == forall|i: int|
                0 <= i < events.len() ==> is_clean_answer(#[trigger] events[i])
        },
        walk_fold(events) matches Err(ne) ==> !ne.clean_miss && !(forall|i: int|
            0 <= i < events.len() ==> is_clean_answer(#[trigger] events[i])),
    decreases events.len(),
{
    if events.len() > 0 {
        let d = events.drop_last();
        lemma_fold_flags(d);
        let last = events.last();
        assert forall|i: int| 0 <= i < d.len() implies d[i] == events[i] by {}
        assert((forall|i: int| 0 <= i < events.len() ==> is_clean_answer(#[trigger] events[i]))
            == ((forall|i: int| 0 <= i < d.len() ==> is_clean_answer(#[trigger] d[i]))
            && is_clean_answer(last))) by {
            if forall|i: int| 0 <= i < events.len() ==> is_clean_answer(#[trigger] events[i]) {
                assert(is_clean_answer(events[events.len() - 1]));
                assert forall|i: int| 0 <= i < d.len() implies is_clean_answer(#[trigger] d[i]) by {
                    assert(is_clean_answer(events[i]));
                }
            }
            if (forall|i: int| 0 <= i < d.len() ==> is_clean_answer(#[trigger] d[i]))
                && is_clean_answer(last) {
                assert forall|i: int| 0 <= i < events.len() implies is_clean_answer(
                    #[trigger] events[i],
                ) by {
                    if i < d.len() {
                        assert(is_clean_answer(d[i]));
                    }
                }
            }
        }
        assert((exists|i: int| 0 <= i < events.len() && events[i] == WalkEvent::SearchAnswered)
            == ((exists|i: int| 0 <= i < d.len() && d[i] == WalkEvent::SearchAnswered) || last
            == WalkEvent::SearchAnswered)) by {
            if exists|i: int| 0 <= i < events.len() && events[i] == WalkEvent::SearchAnswered {
                let i = choose|i: int|
                    0 <= i < events.len() && events[i] == WalkEvent::SearchAnswered;
                if i < d.len() {
                    assert(d[i] == events[i]);
                }
            }
            if exists|i: int| 0 <= i < d.len() && d[i] == WalkEvent::SearchAnswered {
                let i = choose|i: int| 0 <= i < d.len() && d[i] == WalkEvent::SearchAnswered;
                assert(events[i] == d[i]);
            }
            if last == WalkEvent::SearchAnswered {
                assert(events[events.len() - 1] == last);
            }
        }
        match walk_fold(d) {
            Ok(s) => {
                match last {
                    WalkEvent::ChainFailed(e) => {
                        assert(!is_clean_answer(last));
                    },
                    _ => {},
                }
            },
            Err(ne) => {},
        }
    }
}

} // verus!
