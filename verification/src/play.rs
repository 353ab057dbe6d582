//! The play command's decisions: what a play request asks the walk for,
//! at which admission priority, what the availability cache and the history
//! learn from the answer, and what an external player is handed.
//!
//! The provider calls, the caches, the session table and the player
//! process are the caller's; every decision taken between them is here.

use vstd::prelude::*;
use crate::anidb_offset::{write_ep_no, write_ep_no_spec};
use crate::config::Config;
use crate::error::AniError;
use crate::external_player::{ExternalPlayerKind, LaunchArgs};
use crate::syncplay::SyncplayLaunchArgs;
use crate::text::{decimal, push_str, str_eq, to_owned_string, u32_to_string};
use crate::walk::{NativeError, NativeResolved};

verus! {

/// Frontend payload for the play endpoints.
#[derive(Debug, Clone, PartialEq, Eq)]
pub struct PlayArgs {
    /// Canonical title from Kitsu.
    pub title: String,
    /// Episode number, as the frontend sent it.
    pub episode: String,
    /// `"sub"` or `"dub"`.
    pub mode: String,
    /// `"best"`, `"worst"`, a height; `None` means `"best"`.
    pub quality: Option<String>,
    /// Kitsu's episode count.
    pub episode_count: Option<u32>,
    /// The year the show first aired.
    pub year: Option<u32>,
    /// Kitsu's subtype.
    pub subtype: Option<String>,
    /// Fallback titles, tried in order.
    pub alt_titles: Vec<String>,
    /// Whether this is a background prefetch (never written to history).
    pub prefetch: bool,
    /// Kitsu id of the show.
    pub kitsu_id: Option<String>,
}

/// The quality a request plays at: its own, or `"best"`.
pub open spec fn quality_spec(q: Option<Seq<char>>) -> Seq<char> {
    match q {
        Some(q) => q,
        None => "best"@,
    }
}

/// The quality a request plays at.
pub fn effective_quality(args: &PlayArgs) -> (r: &str)
    ensures
        r@ == quality_spec(
            match args.quality {
                Some(q) => Some(q@),
                None => None,
            },
        ),
{
    match &args.quality {
        Some(q) => q.as_str(),
        None => "best",
    }
}

/// Admission priority of a provider request.
#[derive(Debug, Clone, Copy, PartialEq, Eq, Structural)]
pub enum ScrapePriority {
    /// A user waiting.
    Interactive,
    /// Opportunistic work admission control may refuse.
    Background,
}

/// The admission priority of a play-shaped request: prefetches are
/// opportunistic; everything else is a user waiting.
pub fn scrape_priority(args: &PlayArgs) -> (r: ScrapePriority)
    ensures
        r == (if args.prefetch {
            ScrapePriority::Background
        } else {
            ScrapePriority::Interactive
        }),
{
    if args.prefetch {
        ScrapePriority::Background
    } else {
        ScrapePriority::Interactive
    }
}

/// What a native resolution is asked for: the play-relevant slice of a
/// request, borrowed.
#[derive(Debug, Clone, Copy)]
pub struct NativeResolveRequest<'a> {
    /// Canonical title, searched first.
    pub title: &'a str,
    /// Fallback titles, searched in order.
    pub alt_titles: &'a [String],
    /// Episode number as the frontend sent it.
    pub episode: &'a str,
    /// `"sub"` or `"dub"`.
    pub mode: &'a str,
    /// Quality setting.
    pub quality: &'a str,
    /// Kitsu's episode count.
    pub expected_count: Option<u32>,
    /// The year the show premiered.
    pub year: Option<u32>,
    /// Kitsu's subtype.
    pub subtype: Option<&'a str>,
}

/// The resolution request a play request makes.
pub fn native_request<'a>(args: &'a PlayArgs) -> (r: NativeResolveRequest<'a>)
    ensures
        r.title@ == args.title@,
        r.alt_titles@ == args.alt_titles@,
        r.episode@ == args.episode@,
        r.mode@ == args.mode@,
        r.quality@ == quality_spec(
            match args.quality {
                Some(q) => Some(q@),
                None => None,
            },
        ),
        r.expected_count == args.episode_count,
        r.year == args.year,
        match (r.subtype, args.subtype) {
            (Some(a), Some(b)) => a@ == b@,
            (None, None) => true,
            _ => false,
        },
{
    NativeResolveRequest {
        title: args.title.as_str(),
        alt_titles: args.alt_titles.as_slice(),
        episode: args.episode.as_str(),
        mode: args.mode.as_str(),
        quality: effective_quality(args),
        expected_count: args.episode_count,
        year: args.year,
        subtype: match &args.subtype {
            Some(s) => Some(s.as_str()),
            None => None,
        },
    }
}

// ---------------------------------------------------------------------
// Availability stamps
// ---------------------------------------------------------------------

/// What a resolution writes to the availability cache.
#[derive(Debug, Clone, Copy, PartialEq, Eq, Structural)]
pub enum StampPlan {
    /// Nothing: the request carries no Kitsu id.
    Skip,
    /// An exact row: available, with this episode cap (and the
    /// listing's own extras).
    Exact { cap: u32 },
    /// A boolean row.
    Flag { available: bool },
}

/// The availability stamp a resolution leaves.
pub open spec fn stamp_plan_spec(
    kitsu_id: Option<Seq<char>>,
    mode: Seq<char>,
    available: bool,
    episode_cap: Option<u32>,
) -> StampPlan {
    match kitsu_id {
        Some(id) if id.len() > 0 => match episode_cap {
            Some(cap) if available && mode != "dub"@ => StampPlan::Exact { cap },
            _ => StampPlan::Flag { available },
        },
        _ => StampPlan::Skip,
    }
}

/// Decide the availability stamp of a resolution: none without a Kitsu
/// id; an exact row when a positive answer carries a cap and the mode
/// is not dub (a dub resolve proves only one episode has an English
/// embed, so the provider-wide cap is no dub count); a boolean row
/// otherwise.
pub fn stamp_plan(kitsu_id: Option<&str>, mode: &str, available: bool, episode_cap: Option<u32>) -> (r:
    StampPlan)
    ensures
        r == stamp_plan_spec(
            match kitsu_id {
                Some(s) => Some(s@),
                None => None,
            },
            mode@,
            available,
            episode_cap,
        ),
{
    proof {
        reveal_strlit("dub");
    }
    match kitsu_id {
        Some(id) => {
            if id.is_empty() {
                return StampPlan::Skip;
            }
            match episode_cap {
                Some(cap) => if available && !str_eq(mode, "dub") {
                    StampPlan::Exact { cap }
                } else {
                    StampPlan::Flag { available }
                },
                None => StampPlan::Flag { available },
            }
        },
        None => StampPlan::Skip,
    }
}

/// What the play path does with a resolution's outcome.
#[derive(Debug, Clone, PartialEq, Eq)]
pub struct AfterResolve {
    /// Whether to stamp availability (positive or negative).
    pub stamp: Option<bool>,
    /// Whether to record the watch in history.
    pub write_history: bool,
    /// The error to answer with, on failure.
    pub error: Option<AniError>,
}

/// The play path's steps after a resolution: a success stamps a
/// positive row, stamps the numbering, and records history unless
/// prefetching; only a clean miss stamps a negative row; any failure
/// answers with its error.
pub open spec fn after_resolve_spec(native: Result<NativeResolved, NativeError>, prefetch: bool) -> (
    Option<bool>,
    bool,
    Option<AniError>,
) {
    match native {
        Ok(_) => (Some(true), !prefetch, None),
        Err(ne) => (
            if ne.clean_miss {
                Some(false)
            } else {
                None
            },
            false,
            Some(ne.error),
        ),
    }
}

/// Decide the play path's steps after a resolution.
pub fn after_resolve(native: &Result<NativeResolved, NativeError>, prefetch: bool) -> (r: AfterResolve)
    ensures
        (r.stamp, r.write_history, r.error) == after_resolve_spec(*native, prefetch),
{
    match native {
        Ok(_) => AfterResolve { stamp: Some(true), write_history: !prefetch, error: None },
        Err(ne) => AfterResolve {
            stamp: if ne.clean_miss {
                Some(false)
            } else {
                None
            },
            write_history: false,
            error: Some(ne.error.duplicate()),
        },
    }
}

/// Absence is only ever persisted from a clean miss, and a prefetch
/// never writes history.
pub proof fn law_only_a_clean_miss_is_persisted_absence(
    native: Result<NativeResolved, NativeError>,
    prefetch: bool,
)
    ensures
        after_resolve_spec(native, prefetch).0 == Some(false) ==> (native matches Err(ne)
            && ne.clean_miss),
        prefetch ==> !after_resolve_spec(native, prefetch).1,
{
}

// ---------------------------------------------------------------------
// History on a cache hit
// ---------------------------------------------------------------------

/// The episode a cache hit records in history, when it records one:
/// never for a prefetch or a row without a show id; the row's own slot
/// when it carries one; otherwise the stamp-aware provider numbering.
pub open spec fn cache_hit_ep_no_spec(
    prefetch: bool,
    show_id: Seq<char>,
    resolved_slot: Option<u32>,
    stamp: Option<(u32, Seq<char>)>,
    episode: Seq<char>,
    offset: u32,
) -> Option<Seq<char>> {
    if prefetch || show_id.len() == 0 {
        None
    } else {
        match resolved_slot {
            Some(slot) => Some(decimal(slot as nat)),
            None => Some(write_ep_no_spec(stamp, episode, offset)),
        }
    }
}

/// The history episode of a play-cache hit.
pub fn cache_hit_ep_no(
    prefetch: bool,
    show_id: &str,
    resolved_slot: Option<u32>,
    stamp: Option<(u32, &str)>,
    episode: &str,
    offset: u32,
) -> (r: Option<String>)
    ensures
        match r {
            Some(s) => cache_hit_ep_no_spec(
                prefetch,
                show_id@,
                resolved_slot,
                match stamp {
                    Some((slot, tag)) => Some((slot, tag@)),
                    None => None,
                },
                episode@,
                offset,
            ) == Some(s@),
            None => cache_hit_ep_no_spec(
                prefetch,
                show_id@,
                resolved_slot,
                match stamp {
                    Some((slot, tag)) => Some((slot, tag@)),
                    None => None,
                },
                episode@,
                offset,
            ) is None,
        },
{
    if prefetch || show_id.is_empty() {
        return None;
    }
    match resolved_slot {
        Some(slot) => Some(u32_to_string(slot)),
        None => Some(write_ep_no(stamp, episode, offset)),
    }
}

// ---------------------------------------------------------------------
// The upstream URL
// ---------------------------------------------------------------------

/// Whether `url::Url::parse` accepts a string.
pub uninterp spec fn url_parses(s: Seq<char>) -> bool;

/// Calls `url::Url::parse` and reports whether it succeeded. The
/// contract names the verdict [`url_parses`] of the input; the WHATWG
/// URL grammar itself is not restated.
#[verifier::external_body]
fn parses_as_url(s: &str) -> (r: bool)
    ensures
        r == url_parses(s@),
{
    url::Url::parse(s).is_ok()
}

/// The detail of an upstream URL that does not parse.
pub open spec fn bad_upstream_detail(url: Seq<char>) -> Seq<char> {
    "upstream_url: "@ + url + " is not a valid URL"@
}

/// The verdict on a resolved upstream URL, given whether it parses: a
/// URL that does not is a `ParseFailed` naming it.
pub fn upstream_verdict(master_url: &str, parses: bool) -> (r: Result<(), AniError>)
    ensures
        parses ==> r is Ok,
        !parses ==> (r matches Err(AniError::ParseFailed { detail }) && detail@
            == bad_upstream_detail(master_url@)),
{
    if parses {
        Ok(())
    } else {
        let mut detail = to_owned_string("upstream_url: ");
        push_str(&mut detail, master_url);
        push_str(&mut detail, " is not a valid URL");
        Err(AniError::ParseFailed { detail })
    }
}

/// Check a resolved upstream URL before a session is opened for it.
pub fn check_upstream(master_url: &str) -> (r: Result<(), AniError>)
    ensures
        url_parses(master_url@) ==> r is Ok,
        !url_parses(master_url@) ==> (r matches Err(AniError::ParseFailed { detail })
            && detail@ == bad_upstream_detail(master_url@)),
{
    let parses = parses_as_url(master_url);
    upstream_verdict(master_url, parses)
}

// ---------------------------------------------------------------------
// Handing a stream to a player
// ---------------------------------------------------------------------

/// The title a handed-off stream carries.
pub open spec fn handoff_title_spec(title: Seq<char>, episode: Seq<char>) -> Seq<char> {
    title + " · ep "@ + episode
}

/// `"{title} · ep {episode}"`.
pub fn handoff_title(title: &str, episode: &str) -> (r: String)
    ensures
        r@ == handoff_title_spec(title@, episode@),
{
    let mut s = to_owned_string(title);
    push_str(&mut s, " · ep ");
    push_str(&mut s, episode);
    s
}

/// What an external player is handed for a freshly resolved stream:
/// the master URL without a referer (the provider's streams need
/// none), the handoff title, and the player settings.
pub fn handoff_launch(master_url: &str, args: &PlayArgs, cfg: &Config) -> (r: LaunchArgs)
    ensures
        r.stream_url@ == master_url@,
        r.referer is None,
        r.subtitle_url is None,
        r.title matches Some(t) && t@ == handoff_title_spec(args.title@, args.episode@),
        r.player_command@ == cfg.external_player@,
        r.player_kind == cfg.external_player_kind,
        r.custom_args_template matches Some(t) && t@ == cfg.external_player_custom_args@,
{
    LaunchArgs {
        stream_url: to_owned_string(master_url),
        referer: None,
        subtitle_url: None,
        title: Some(handoff_title(args.title.as_str(), args.episode.as_str())),
        player_command: to_owned_string(cfg.external_player.as_str()),
        player_kind: cfg.external_player_kind,
        custom_args_template: Some(to_owned_string(cfg.external_player_custom_args.as_str())),
    }
}

/// What Syncplay is handed for a stream the external-player path would
/// play: the same stream, referer and subtitle, the configured Syncplay
/// binary, and the user's external player as the player it wraps, with
/// that player's flag syntax.
pub fn syncplay_handoff(launch: &LaunchArgs, cfg: &Config) -> (r: SyncplayLaunchArgs)
    ensures
        r.stream_url@ == launch.stream_url@,
        r.binary@ == cfg.syncplay_binary@,
        opt_str_view(r.referer) == opt_str_view(launch.referer),
        opt_str_view(r.subtitle_url) == opt_str_view(launch.subtitle_url),
        r.player_kind == cfg.external_player_kind,
        r.player_binary@ == cfg.external_player@,
{
    SyncplayLaunchArgs {
        stream_url: to_owned_string(launch.stream_url.as_str()),
        binary: to_owned_string(cfg.syncplay_binary.as_str()),
        referer: clone_opt_str(&launch.referer),
        subtitle_url: clone_opt_str(&launch.subtitle_url),
        player_kind: cfg.external_player_kind,
        player_binary: to_owned_string(cfg.external_player.as_str()),
    }
}

/// An optional string as its view.
pub open spec fn opt_str_view(o: Option<String>) -> Option<Seq<char>> {
    match o {
        Some(s) => Some(s@),
        None => None,
    }
}

fn clone_opt_str(o: &Option<String>) -> (r: Option<String>)
    ensures
        opt_str_view(r) == opt_str_view(*o),
{
    match o {
        Some(s) => Some(to_owned_string(s.as_str())),
        None => None,
    }
}

// ---------------------------------------------------------------------
// Wire forms
// ---------------------------------------------------------------------

/// The pieces of a newline-joined list, empty ones dropped.
pub open spec fn joined_list_spec(s: Seq<char>) -> Seq<Seq<char>>
    decreases s.len(),
{
    match crate::text::find_char_spec(s, '\n') {
        Some(i) => {
            let head = s.subrange(0, i);
            let rest = joined_list_spec(s.subrange(i + 1, s.len() as int));
            if head.len() > 0 {
                seq![head] + rest
            } else {
                rest
            }
        },
        None => if s.len() > 0 {
            seq![s]
        } else {
            Seq::empty()
        },
    }
}

/// Split the newline-joined form of a title list (the query-string
/// wire form), dropping empty segments.
pub fn split_joined_titles(s: &str) -> (r: Vec<String>)
    ensures
        r@.map_values(|t: String| t@) == joined_list_spec(s@),
    decreases s@.len(),
{
    let len = s.unicode_len();
    match crate::text::find_char(s, '\n') {
        Some(i) => {
            let head = s.substring_char(0, i);
            let rest = split_joined_titles(s.substring_char(i + 1, len));
            let mut out: Vec<String> = Vec::new();
            if !head.is_empty() {
                out.push(to_owned_string(head));
            }
            let ghost first = out@.map_values(|t: String| t@);
            let mut k: usize = 0;
            while k < rest.len()
                invariant
                    k <= rest@.len(),
                    out@.map_values(|t: String| t@) == first + rest@.map_values(|t: String| t@).subrange(
                        0,
                        k as int,
                    ),
                decreases rest@.len() - k,
            {
                let ghost before = out@;
                let piece = to_owned_string(rest[k].as_str());
                out.push(piece);
                proof {
                    let rv = rest@.map_values(|t: String| t@);
                    assert(rv[k as int] == rest@[k as int]@);
                    assert(out@.map_values(|t: String| t@) =~= before.map_values(|t: String| t@).push(
                        piece@,
                    ));
                    assert(rv.subrange(0, k + 1) =~= rv.subrange(0, k as int).push(rv[k as int]));
                    assert(out@.map_values(|t: String| t@) =~= first + rv.subrange(0, k + 1));
                }
                k = k + 1;
            }
            proof {
                assert(rest@.map_values(|t: String| t@).subrange(0, k as int) =~= rest@.map_values(
                    |t: String| t@,
                ));
                if head@.len() > 0 {
                    assert(first =~= seq![head@]);
                } else {
                    assert(first =~= Seq::<Seq<char>>::empty());
                }
                assert(out@.map_values(|t: String| t@) =~= joined_list_spec(s@));
            }
            out
        },
        None => {
            let mut out: Vec<String> = Vec::new();
            if !s.is_empty() {
                out.push(to_owned_string(s));
            }
            proof {
                assert(out@.map_values(|t: String| t@) =~= joined_list_spec(s@));
            }
            out
        },
    }
}

/// The loose string form of a flag: `"1"`, `"true"` and `"yes"` are
/// true; anything else is false.
pub open spec fn loose_bool_spec(s: Seq<char>) -> bool {
    s == "1"@ || s == "true"@ || s == "yes"@
}

/// Read the loose string form of a flag (the query-string wire form).
pub fn loose_bool(s: &str) -> (r: bool)
    ensures
        r == loose_bool_spec(s@),
{
    str_eq(s, "1") || str_eq(s, "true") || str_eq(s, "yes")
}

} // verus!
