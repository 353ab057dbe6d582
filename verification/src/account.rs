//! Tracker-account logic: the unified list status and its cache
//! spelling, the validation of a renderer-supplied entry update, and
//! the monotonic reconciliation of a write-back against the tracker's
//! current entry.

use vstd::prelude::*;
use crate::error::AniError;
use crate::text::{str_eq, to_owned_string};

verus! {

/// The unified list status across trackers.
#[derive(Debug, Clone, Copy, PartialEq, Eq, Structural)]
pub enum ListStatus {
    /// Plan to watch.
    Planning,
    /// Currently watching.
    Watching,
    /// Finished.
    Completed,
    /// On hold.
    Paused,
    /// Dropped.
    Dropped,
    /// Re-watching a finished series.
    Rewatching,
}

/// Which tracker an account belongs to.
#[derive(Debug, Clone, Copy, PartialEq, Eq, Structural)]
pub enum ProviderKind {
    /// AniList.
    AniList,
    /// MyAnimeList.
    MyAnimeList,
    /// The in-house tracker (no external id space yet).
    InHouse,
}

/// A write to one list entry: each field absent means "leave as is".
#[derive(Debug, Clone, Copy, PartialEq, Eq, Structural)]
pub struct EntryUpdate {
    /// New status.
    pub status: Option<ListStatus>,
    /// New episode progress.
    pub progress_episodes: Option<u32>,
    /// New score, 0 to 100.
    pub score_0_to_100: Option<u8>,
    /// New rewatch count.
    pub repeat_count: Option<u32>,
}

impl Default for EntryUpdate {
    fn default() -> (u: Self)
        ensures
            u.status is None,
            u.progress_episodes is None,
            u.score_0_to_100 is None,
            u.repeat_count is None,
    {
        EntryUpdate { status: None, progress_episodes: None, score_0_to_100: None, repeat_count: None }
    }
}

/// The tracker's current entry for a show, as the monotonic guard reads
/// it.
#[derive(Debug, Clone, Copy, PartialEq, Eq, Structural)]
pub struct CurrentEntry {
    /// The entry's status.
    pub status: ListStatus,
    /// The entry's episode progress.
    pub progress_episodes: u32,
}

/// An OAuth token set.
#[derive(Debug, Clone, PartialEq, Eq)]
pub struct Tokens {
    /// The bearer.
    pub access_token: String,
    /// The refresh token, when the provider issued one.
    pub refresh_token: Option<String>,
    /// Expiry, seconds since the epoch; 0 when unknown.
    pub expires_at_epoch_s: u64,
}

/// A PKCE challenge method.
#[derive(Debug, Clone, Copy, PartialEq, Eq, Structural)]
pub enum PkceMethod {
    /// The challenge is the verifier itself (MyAnimeList accepts only
    /// this).
    Plain,
    /// The challenge is the verifier's SHA-256.
    S256,
}

/// The PKCE configuration a provider's authorization flow uses.
#[derive(Debug, Clone, Copy, PartialEq, Eq, Structural)]
pub struct Pkce {
    /// The challenge method.
    pub method: PkceMethod,
}

/// The cache's snake_case spelling of a status.
pub open spec fn status_snake_spec(s: ListStatus) -> Seq<char> {
    match s {
        ListStatus::Planning => "planning"@,
        ListStatus::Watching => "watching"@,
        ListStatus::Completed => "completed"@,
        ListStatus::Paused => "paused"@,
        ListStatus::Dropped => "dropped"@,
        ListStatus::Rewatching => "rewatching"@,
    }
}

/// The status a snake_case spelling names, if any.
pub open spec fn status_from_snake_spec(s: Seq<char>) -> Option<ListStatus> {
    if s == "planning"@ {
        Some(ListStatus::Planning)
    } else if s == "watching"@ {
        Some(ListStatus::Watching)
    } else if s == "completed"@ {
        Some(ListStatus::Completed)
    } else if s == "paused"@ {
        Some(ListStatus::Paused)
    } else if s == "dropped"@ {
        Some(ListStatus::Dropped)
    } else if s == "rewatching"@ {
        Some(ListStatus::Rewatching)
    } else {
        None
    }
}

/// Translate the unified status into the snake_case string the cache
/// stores.
pub fn status_to_snake(s: ListStatus) -> (r: &'static str)
    ensures
        r@ == status_snake_spec(s),
{
    match s {
        ListStatus::Planning => "planning",
        ListStatus::Watching => "watching",
        ListStatus::Completed => "completed",
        ListStatus::Paused => "paused",
        ListStatus::Dropped => "dropped",
        ListStatus::Rewatching => "rewatching",
    }
}

/// Inverse of [`status_to_snake`].
pub fn status_from_snake(s: &str) -> (r: Option<ListStatus>)
    ensures
        r == status_from_snake_spec(s@),
{
    if str_eq(s, "planning") {
        Some(ListStatus::Planning)
    } else if str_eq(s, "watching") {
        Some(ListStatus::Watching)
    } else if str_eq(s, "completed") {
        Some(ListStatus::Completed)
    } else if str_eq(s, "paused") {
        Some(ListStatus::Paused)
    } else if str_eq(s, "dropped") {
        Some(ListStatus::Dropped)
    } else if str_eq(s, "rewatching") {
        Some(ListStatus::Rewatching)
    } else {
        None
    }
}

/// Reading back a status's spelling gives the status.
pub proof fn law_status_snake_round_trips(s: ListStatus)
    ensures
        status_from_snake_spec(status_snake_spec(s)) == Some(s),
{
    reveal_strlit("planning");
    reveal_strlit("watching");
    reveal_strlit("completed");
    reveal_strlit("paused");
    reveal_strlit("dropped");
    reveal_strlit("rewatching");
    let p = "planning"@;
    let w = "watching"@;
    let c = "completed"@;
    let a = "paused"@;
    let d = "dropped"@;
    let r = "rewatching"@;
    assert(p[0] == 'p' && w[0] == 'w' && c[0] == 'c' && a[0] == 'p' && d[0] == 'd' && r[0] == 'r');
    assert(p[1] == 'l' && a[1] == 'a');
    assert(w != p);
    assert(c != p && c != w);
    assert(a != p && a != w && a != c);
    assert(d != p && d != w && d != c && d != a);
    assert(r != p && r != w && r != c && r != a && r != d);
}

/// An update with nothing in it.
pub open spec fn is_empty_update(u: EntryUpdate) -> bool {
    u.status is None && u.progress_episodes is None && u.score_0_to_100 is None
        && u.repeat_count is None
}

/// The validated update built from the renderer's wire fields: an
/// unrecognized status, or an update with no status, progress or score,
/// is rejected with `Metadata`.
pub open spec fn build_entry_update_spec(
    status: Option<Seq<char>>,
    progress_episodes: Option<u32>,
    score_0_to_100: Option<u8>,
) -> Result<EntryUpdate, AniError> {
    match status {
        Some(s) if status_from_snake_spec(s) is None => Err(AniError::Metadata),
        _ => {
            let st = match status {
                Some(s) => status_from_snake_spec(s),
                None => None,
            };
            if st is None && progress_episodes is None && score_0_to_100 is None {
                Err(AniError::Metadata)
            } else {
                Ok(
                    EntryUpdate {
                        status: st,
                        progress_episodes,
                        score_0_to_100,
                        repeat_count: None,
                    },
                )
            }
        },
    }
}

/// Build a validated [`EntryUpdate`] from the renderer's wire fields.
pub fn build_entry_update(
    status: Option<&str>,
    progress_episodes: Option<u32>,
    score_0_to_100: Option<u8>,
) -> (r: Result<EntryUpdate, AniError>)
    ensures
        r == build_entry_update_spec(
            match status {
                Some(s) => Some(s@),
                None => None,
            },
            progress_episodes,
            score_0_to_100,
        ),
{
    let status = match status {
        None => None,
        Some(s) => match status_from_snake(s) {
            Some(st) => Some(st),
            None => return Err(AniError::Metadata),
        },
    };
    if status.is_none() && progress_episodes.is_none() && score_0_to_100.is_none() {
        return Err(AniError::Metadata);
    }
    Ok(EntryUpdate { status, progress_episodes, score_0_to_100, repeat_count: None })
}

/// The write worth sending after reconciling `update` against the
/// tracker's `current` entry, or `None` when nothing actionable
/// remains:
/// - progress that would not advance the current count is dropped, and
///   a non-advancing `Watching` with it;
/// - a `Completed` on a row that is mid-rewatch is dropped, so the
///   rewatch survives the finale;
/// - a watch event with no status promotes a planning or unlisted row
///   to `Watching`, leaving every other status untouched.
pub open spec fn reconcile_spec(update: EntryUpdate, current: Option<CurrentEntry>) -> Option<
    EntryUpdate,
> {
    let is_watch_event = update.progress_episodes is Some;
    let advances = match (current, update.progress_episodes) {
        (Some(c), Some(p)) => p > c.progress_episodes,
        _ => true,
    };
    let u1 = if !advances {
        EntryUpdate {
            progress_episodes: None,
            status: if update.status == Some(ListStatus::Watching) {
                None
            } else {
                update.status
            },
            ..update
        }
    } else {
        update
    };
    let u2 = if u1.status == Some(ListStatus::Completed) && (match current {
        Some(c) => c.status == ListStatus::Rewatching,
        None => false,
    }) {
        EntryUpdate { status: None, ..u1 }
    } else {
        u1
    };
    let promote = match current {
        None => true,
        Some(c) => c.status == ListStatus::Planning,
    };
    let u3 = if is_watch_event && u2.status is None && promote {
        EntryUpdate { status: Some(ListStatus::Watching), ..u2 }
    } else {
        u2
    };
    if is_empty_update(u3) {
        None
    } else {
        Some(u3)
    }
}

/// Reconcile a write against the tracker's current list entry so the
/// write-back stays monotonic and status-preserving.
pub fn reconcile_monotonic(update: EntryUpdate, current: Option<CurrentEntry>) -> (r: Option<
    EntryUpdate,
>)
    ensures
        r == reconcile_spec(update, current),
{
    let mut update = update;
    let current_progress = match current {
        Some(c) => Some(c.progress_episodes),
        None => None,
    };
    // Captured before the non-advance branch may strip the progress
    // field, so the planning promotion still fires on a non-advancing
    // write.
    let is_watch_event = update.progress_episodes.is_some();
    let advances = match (current_progress, update.progress_episodes) {
        (Some(c), Some(p)) => p > c,
        _ => true,
    };
    if !advances {
        update.progress_episodes = None;
        if update.status == Some(ListStatus::Watching) {
            update.status = None;
        }
    }
    let rewatching = match current {
        Some(c) => c.status == ListStatus::Rewatching,
        None => false,
    };
    if update.status == Some(ListStatus::Completed) && rewatching {
        update.status = None;
    }
    if is_watch_event && update.status.is_none() {
        let promote = match current {
            None => true,
            Some(c) => c.status == ListStatus::Planning,
        };
        if promote {
            update.status = Some(ListStatus::Watching);
        }
    }
    let empty = update.status.is_none() && update.progress_episodes.is_none()
        && update.score_0_to_100.is_none() && update.repeat_count.is_none();
    if empty {
        None
    } else {
        Some(update)
    }
}

/// The write-back never regresses progress, never completes a row that
/// is mid-rewatch, never sends an empty write, and never invents a
/// score or a rewatch count.
pub proof fn law_reconcile_is_monotonic(update: EntryUpdate, current: Option<CurrentEntry>)
    ensures
        reconcile_spec(update, current) matches Some(u) ==> {
            &&& !is_empty_update(u)
            &&& (u.progress_episodes matches Some(p) ==> (current matches Some(c)
                ==> p > c.progress_episodes))
            &&& (u.progress_episodes is Some ==> u.progress_episodes == update.progress_episodes)
            &&& (current matches Some(c) && c.status == ListStatus::Rewatching ==> u.status
                != Some(ListStatus::Completed))
            &&& u.score_0_to_100 == update.score_0_to_100
            &&& u.repeat_count == update.repeat_count
        },
{
}

/// A watch event on a planning or not-yet-listed show always leaves
/// Watch Later: whatever the counts, the write carries `Watching` unless
/// the caller asked for another status.
pub proof fn law_watch_event_promotes_planning(update: EntryUpdate, current: Option<CurrentEntry>)
    requires
        update.progress_episodes is Some,
        update.status is None || update.status == Some(ListStatus::Watching),
        current matches Some(c) ==> c.status == ListStatus::Planning,
    ensures
        reconcile_spec(update, current) matches Some(u) && u.status == Some(ListStatus::Watching),
{
}

/// When the caller asks for no status, the write carries one only to
/// promote a watch event on a planning or not-yet-listed show, and
/// then it is `Watching`; every other listed status (watching,
/// completed, paused, dropped, rewatching) is left untouched.
pub proof fn law_status_is_only_promoted_from_planning(
    update: EntryUpdate,
    current: Option<CurrentEntry>,
)
    requires
        update.status is None,
    ensures
        ({
            let r = reconcile_spec(update, current);
            let promotable = update.progress_episodes is Some && (current is None
                || current->0.status == ListStatus::Planning);
            &&& r is Some ==> (r->0.status is Some <==> promotable)
            &&& r is Some && r->0.status is Some ==> r->0.status == Some(ListStatus::Watching)
            &&& promotable ==> r is Some && r->0.status == Some(ListStatus::Watching)
            &&& current is Some && current->0.status != ListStatus::Planning && r is Some
                ==> r->0.status is None
        }),
{
}

/// A score-only update (no progress) passes through untouched.
pub proof fn law_progressless_update_passes_through(
    update: EntryUpdate,
    current: Option<CurrentEntry>,
)
    requires
        update.progress_episodes is None,
        !is_empty_update(update),
        update.status != Some(ListStatus::Completed),
    ensures
        reconcile_spec(update, current) == Some(update),
{
}

/// Decode the `Authorization: Bearer <token>` value into a token set:
/// the header carries no expiry and no refresh token.
pub fn tokens_from_bearer(bearer: &str) -> (t: Tokens)
    ensures
        t.access_token@ == bearer@,
        t.refresh_token is None,
        t.expires_at_epoch_s == 0,
{
    Tokens { access_token: to_owned_string(bearer), refresh_token: None, expires_at_epoch_s: 0 }
}

/// The PKCE method a provider requires: MyAnimeList takes only `plain`;
/// AniList ignores PKCE and the in-house tracker takes `S256`.
pub open spec fn pkce_method_spec(kind: ProviderKind) -> PkceMethod {
    match kind {
        ProviderKind::MyAnimeList => PkceMethod::Plain,
        _ => PkceMethod::S256,
    }
}

/// The PKCE configuration appropriate for the provider.
pub fn pkce_for_kind(kind: ProviderKind) -> (p: Pkce)
    ensures
        p.method == pkce_method_spec(kind),
{
    match kind {
        ProviderKind::MyAnimeList => Pkce { method: PkceMethod::Plain },
        ProviderKind::AniList | ProviderKind::InHouse => Pkce { method: PkceMethod::S256 },
    }
}

/// Cap on the renderer-supplied Watch-Later bridge batch.
pub const WATCH_LATER_BRIDGE_MAX_IDS: usize = 500;

/// The MAL ids the Watch-Later bridge looks up: the input truncated at
/// [`WATCH_LATER_BRIDGE_MAX_IDS`], order preserved.
pub fn bounded_mal_ids(mal_ids: &Vec<u32>) -> (r: Vec<u32>)
    ensures
        r@ == mal_ids@.take(
            if mal_ids@.len() <= WATCH_LATER_BRIDGE_MAX_IDS {
                mal_ids@.len() as int
            } else {
                WATCH_LATER_BRIDGE_MAX_IDS as int
            },
        ),
{
    let n = if mal_ids.len() <= WATCH_LATER_BRIDGE_MAX_IDS {
        mal_ids.len()
    } else {
        WATCH_LATER_BRIDGE_MAX_IDS
    };
    let mut out: Vec<u32> = Vec::new();
    let mut i: usize = 0;
    while i < n
        invariant
            i <= n <= mal_ids@.len(),
            out@ =~= mal_ids@.take(i as int),
        decreases n - i,
    {
        out.push(mal_ids[i]);
        i = i + 1;
    }
    out
}

/// The Watch-Later bridge's two lookup phases merged: each slot keeps
/// its direct Kitsu hit, a miss takes the fallback answer for it, and
/// the slots still empty are dropped, input order preserved.
pub open spec fn merge_bridge_slots_spec<T>(direct: Seq<Option<T>>, fallback: Seq<Option<T>>) -> Seq<
    T,
>
    decreases direct.len(),
{
    if direct.len() == 0 {
        Seq::empty()
    } else {
        let rest = merge_bridge_slots_spec(direct.drop_last(), fallback.drop_last());
        match direct.last() {
            Some(x) => rest.push(x),
            None => match fallback.last() {
                Some(y) => rest.push(y),
                None => rest,
            },
        }
    }
}

/// The Kitsu id each Watch-Later slot resolves to: the direct lookup's
/// answer, else the fallback's, with unresolved slots dropped.
pub fn merge_bridge_slots(direct: Vec<Option<u64>>, fallback: Vec<Option<u64>>) -> (r: Vec<u64>)
    requires
        direct@.len() == fallback@.len(),
    ensures
        r@ == merge_bridge_slots_spec(direct@, fallback@),
{
    let mut out: Vec<u64> = Vec::new();
    let mut i: usize = 0;
    while i < direct.len()
        invariant
            i <= direct@.len(),
            direct@.len() == fallback@.len(),
            out@ == merge_bridge_slots_spec(
                direct@.subrange(0, i as int),
                fallback@.subrange(0, i as int),
            ),
        decreases direct@.len() - i,
    {
        proof {
            assert(direct@.subrange(0, i + 1).drop_last() =~= direct@.subrange(0, i as int));
            assert(fallback@.subrange(0, i + 1).drop_last() =~= fallback@.subrange(0, i as int));
        }
        match direct[i] {
            Some(x) => out.push(x),
            None => match fallback[i] {
                Some(y) => out.push(y),
                None => {},
            },
        }
        i = i + 1;
    }
    proof {
        assert(direct@.subrange(0, i as int) =~= direct@);
        assert(fallback@.subrange(0, i as int) =~= fallback@);
    }
    out
}

/// The provider-native media id a Kitsu id resolves to, given Kitsu's
/// mappings and the AniList bridge answers: MyAnimeList uses the mapped
/// MAL id, else the MAL id AniList records for the mapped AniList id;
/// AniList uses the media id its MAL bridge returns, else the mapped
/// AniList id; the in-house tracker has no external id space.
pub open spec fn native_media_id_spec(
    kind: ProviderKind,
    mal: Option<u32>,
    anilist: Option<u32>,
    anilist_mal_bridge: Option<u32>,
    mal_anilist_bridge: Option<u32>,
) -> Option<u32> {
    match kind {
        ProviderKind::MyAnimeList => match mal {
            Some(m) => Some(m),
            None => match anilist {
                Some(_) => anilist_mal_bridge,
                None => None,
            },
        },
        ProviderKind::AniList => match (mal, mal_anilist_bridge) {
            (Some(_), Some(media)) => Some(media),
            _ => anilist,
        },
        ProviderKind::InHouse => None,
    }
}

/// Which AniList bridge call the resolution needs, given Kitsu's
/// mappings: `Some(true)` asks AniList for the MAL id of the mapped
/// AniList id, `Some(false)` asks for the AniList media id of the
/// mapped MAL id, `None` needs no bridge.
pub open spec fn bridge_needed_spec(kind: ProviderKind, mal: Option<u32>, anilist: Option<u32>) -> Option<bool> {
    match kind {
        ProviderKind::MyAnimeList => if mal is None && anilist is Some {
            Some(true)
        } else {
            None
        },
        ProviderKind::AniList => if mal is Some {
            Some(false)
        } else {
            None
        },
        ProviderKind::InHouse => None,
    }
}

/// The bridge call the native-id resolution must make first.
pub fn bridge_needed(kind: ProviderKind, mal: Option<u32>, anilist: Option<u32>) -> (r: Option<bool>)
    ensures
        r == bridge_needed_spec(kind, mal, anilist),
{
    match kind {
        ProviderKind::MyAnimeList => if mal.is_none() && anilist.is_some() {
            Some(true)
        } else {
            None
        },
        ProviderKind::AniList => if mal.is_some() {
            Some(false)
        } else {
            None
        },
        ProviderKind::InHouse => None,
    }
}

/// Resolve the provider-native media id from Kitsu's mappings and the
/// bridge answer (`None` when no bridge call was made or it found
/// nothing): `None` means nothing to push to this tracker.
pub fn native_media_id(
    kind: ProviderKind,
    mal: Option<u32>,
    anilist: Option<u32>,
    bridge_answer: Option<u32>,
) -> (r: Option<u32>)
    ensures
        r == native_media_id_spec(
            kind,
            mal,
            anilist,
            if bridge_needed_spec(kind, mal, anilist) == Some(true) {
                bridge_answer
            } else {
                None
            },
            if bridge_needed_spec(kind, mal, anilist) == Some(false) {
                bridge_answer
            } else {
                None
            },
        ),
{
    match kind {
        ProviderKind::MyAnimeList => match mal {
            Some(m) => Some(m),
            None => match anilist {
                Some(_) => bridge_answer,
                None => None,
            },
        },
        ProviderKind::AniList => match (mal, bridge_answer) {
            (Some(_), Some(media)) => Some(media),
            _ => anilist,
        },
        ProviderKind::InHouse => None,
    }
}

/// Whether `kind` has a user-list provider implementation.
pub fn provider_is_supported(kind: ProviderKind) -> (b: bool)
    ensures
        b == (kind != ProviderKind::InHouse),
{
    match kind {
        ProviderKind::InHouse => false,
        _ => true,
    }
}

/// The slots the direct Kitsu lookups missed, each with its MAL id:
/// what the AniList fallback is asked about.
pub open spec fn bridge_misses_spec(slots: Seq<Option<u64>>, mal_ids: Seq<u32>) -> Seq<(int, u32)>
    decreases slots.len(),
{
    if slots.len() == 0 {
        Seq::empty()
    } else {
        let rest = bridge_misses_spec(slots.drop_last(), mal_ids);
        let i = slots.len() - 1;
        if slots.last() is None {
            rest.push((i, mal_ids[i]))
        } else {
            rest
        }
    }
}

/// The Watch-Later slots the direct lookup missed, with their MAL ids.
pub fn bridge_misses(slots: &Vec<Option<u64>>, mal_ids: &Vec<u32>) -> (r: Vec<(usize, u32)>)
    requires
        slots@.len() == mal_ids@.len(),
    ensures
        r@.map_values(|p: (usize, u32)| (p.0 as int, p.1)) == bridge_misses_spec(slots@, mal_ids@),
{
    let mut out: Vec<(usize, u32)> = Vec::new();
    let mut i: usize = 0;
    while i < slots.len()
        invariant
            i <= slots@.len(),
            slots@.len() == mal_ids@.len(),
            out@.map_values(|p: (usize, u32)| (p.0 as int, p.1)) == bridge_misses_spec(
                slots@.subrange(0, i as int),
                mal_ids@,
            ),
        decreases slots@.len() - i,
    {
        proof {
            assert(slots@.subrange(0, i + 1).drop_last() =~= slots@.subrange(0, i as int));
        }
        let ghost before = out@;
        if slots[i].is_none() {
            out.push((i, mal_ids[i]));
            proof {
                assert(out@.map_values(|p: (usize, u32)| (p.0 as int, p.1)) =~= before.map_values(
                    |p: (usize, u32)| (p.0 as int, p.1),
                ).push((i as int, mal_ids@[i as int])));
            }
        }
        i = i + 1;
    }
    proof {
        assert(slots@.subrange(0, i as int) =~= slots@);
    }
    out
}

/// A tracker delete whose request failed still counts as removed when
/// the entry is gone on a re-read; otherwise the delete's own error
/// stands.
pub open spec fn delete_verdict_spec(
    delete: Result<(), AniError>,
    recheck: Result<bool, AniError>,
) -> Result<bool, AniError> {
    match delete {
        Ok(()) => Ok(true),
        Err(e) => match recheck {
            Ok(present) => if present {
                Err(e)
            } else {
                Ok(true)
            },
            Err(_) => Err(e),
        },
    }
}

/// Decide a removal: `delete` is the delete request's answer and
/// `recheck` the re-read after a failed one (whether the entry is still
/// present); the re-read is not consulted after a successful delete.
pub fn delete_verdict(delete: Result<(), AniError>, recheck: Result<bool, AniError>) -> (r: Result<
    bool,
    AniError,
>)
    ensures
        r == delete_verdict_spec(delete, recheck),
{
    match delete {
        Ok(()) => Ok(true),
        Err(e) => match recheck {
            Ok(present) => if present {
                Err(e)
            } else {
                Ok(true)
            },
            Err(_) => Err(e),
        },
    }
}

} // verus!
