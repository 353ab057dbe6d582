//! The "Watch together" launch: the command line for the user's
//! locally installed Syncplay on a resolved stream URL.
//!
//! Syncplay's grammar is `syncplay [options] [file] -- [player
//! options]`. `--player-path=` is a Syncplay option and goes before the
//! file; the wrapped player's referrer and subtitle flags go after the
//! `--` separator, spelled for the configured player kind.

use vstd::prelude::*;
use crate::error::AniError;
use crate::external_player::ExternalPlayerKind;
use crate::text::{concat2, trim, trim_spec};

verus! {

/// What a Syncplay launch needs.
#[derive(Debug, Clone, PartialEq, Eq)]
pub struct SyncplayLaunchArgs {
    /// The resolved stream URL: Syncplay's positional file argument.
    pub stream_url: String,
    /// The Syncplay binary.
    pub binary: String,
    /// `Referer:` value the upstream CDN requires, if any.
    pub referer: Option<String>,
    /// Sidecar subtitle URL, if any.
    pub subtitle_url: Option<String>,
    /// Which media player Syncplay wraps (drives the flag spelling).
    pub player_kind: ExternalPlayerKind,
    /// The media-player binary Syncplay should wrap; empty defers to
    /// Syncplay's own configuration.
    pub player_binary: String,
}

/// A present, non-empty optional value.
pub open spec fn nonempty(o: Option<String>) -> Option<Seq<char>> {
    match o {
        Some(s) => if s@.len() > 0 {
            Some(s@)
        } else {
            None
        },
        None => None,
    }
}

/// The referrer flag for each wrapped player.
pub open spec fn referrer_flag_spec(kind: ExternalPlayerKind) -> Seq<char> {
    match kind {
        ExternalPlayerKind::Vlc => "--http-referrer="@,
        ExternalPlayerKind::Iina => "--mpv-referrer="@,
        _ => "--referrer="@,
    }
}

/// The Syncplay command line.
pub open spec fn syncplay_argv_spec(args: SyncplayLaunchArgs) -> Seq<Seq<char>> {
    let head = if args.player_binary@.len() > 0 {
        seq!["--player-path="@ + args.player_binary@]
    } else {
        Seq::empty()
    };
    let base = head.push(args.stream_url@);
    if args.player_kind == ExternalPlayerKind::Custom {
        base
    } else {
        let r = nonempty(args.referer);
        let s = nonempty(args.subtitle_url);
        if r is None && s is None {
            base
        } else {
            base.push("--"@) + (match r {
                Some(x) => seq![referrer_flag_spec(args.player_kind) + x],
                None => Seq::empty(),
            }) + (match s {
                Some(x) => seq!["--sub-file="@ + x],
                None => Seq::empty(),
            })
        }
    }
}

fn referrer_flag(kind: ExternalPlayerKind) -> (f: &'static str)
    ensures
        f@ == referrer_flag_spec(kind),
{
    match kind {
        ExternalPlayerKind::Vlc => "--http-referrer=",
        ExternalPlayerKind::Iina => "--mpv-referrer=",
        _ => "--referrer=",
    }
}

fn nonempty_str(o: &Option<String>) -> (r: Option<&str>)
    ensures
        match r {
            Some(x) => nonempty(*o) == Some(x@),
            None => nonempty(*o) is None,
        },
{
    match o {
        Some(s) => if s.as_str().unicode_len() > 0 {
            Some(s.as_str())
        } else {
            None
        },
        None => None,
    }
}

/// Build the argv passed to the Syncplay binary.
pub fn build_argv(args: &SyncplayLaunchArgs) -> (r: Vec<String>)
    ensures
        r.deep_view() == syncplay_argv_spec(*args),
{
    let mut argv: Vec<String> = Vec::new();
    if args.player_binary.as_str().unicode_len() > 0 {
        argv.push(concat2("--player-path=", args.player_binary.as_str()));
    }
    argv.push(args.stream_url.clone());
    let ghost base = argv.deep_view();
    proof {
        let head = if args.player_binary@.len() > 0 {
            seq!["--player-path="@ + args.player_binary@]
        } else {
            Seq::empty()
        };
        assert(base =~= head.push(args.stream_url@));
    }
    if args.player_kind == ExternalPlayerKind::Custom {
        return argv;
    }
    let referer = nonempty_str(&args.referer);
    let subtitle = nonempty_str(&args.subtitle_url);
    if referer.is_some() || subtitle.is_some() {
        argv.push(String::from_str("--"));
        let ghost with_sep = argv.deep_view();
        proof {
            assert(with_sep =~= base.push("--"@));
        }
        match referer {
            Some(r) => argv.push(concat2(referrer_flag(args.player_kind), r)),
            None => {},
        }
        let ghost with_ref = argv.deep_view();
        match subtitle {
            Some(s) => argv.push(concat2("--sub-file=", s)),
            None => {},
        }
        proof {
            let rpart = match nonempty(args.referer) {
                Some(x) => seq![referrer_flag_spec(args.player_kind) + x],
                None => Seq::<Seq<char>>::empty(),
            };
            let spart = match nonempty(args.subtitle_url) {
                Some(x) => seq!["--sub-file="@ + x],
                None => Seq::<Seq<char>>::empty(),
            };
            assert(with_ref =~= with_sep + rpart);
            assert(argv.deep_view() =~= with_sep + rpart + spart);
        }
    }
    argv
}

/// The command line for a Syncplay launch, or the spawn failure a blank
/// binary is reported as.
pub open spec fn prepare_syncplay_spec(args: SyncplayLaunchArgs) -> Result<Seq<Seq<char>>, AniError> {
    if trim_spec(args.binary@).len() == 0 {
        Err(AniError::SyncplaySpawnFailed { binary: args.binary })
    } else {
        Ok(syncplay_argv_spec(args))
    }
}

/// Check the launch and build its command line; the caller spawns
/// `binary` with it.
pub fn prepare_syncplay(args: &SyncplayLaunchArgs) -> (r: Result<Vec<String>, AniError>)
    ensures
        match r {
            Ok(v) => prepare_syncplay_spec(*args) == Ok::<Seq<Seq<char>>, AniError>(v.deep_view()),
            Err(e) => prepare_syncplay_spec(*args) == Err::<Seq<Seq<char>>, AniError>(e),
        },
{
    if trim(args.binary.as_str()).unicode_len() == 0 {
        return Err(AniError::SyncplaySpawnFailed { binary: args.binary.clone() });
    }
    Ok(build_argv(args))
}

/// The stream URL is always present, before any separator, and exactly
/// one argument ahead of it exists when a player path is configured.
pub proof fn law_stream_url_is_the_positional_argument(args: SyncplayLaunchArgs)
    ensures
        syncplay_argv_spec(args)[if args.player_binary@.len() > 0 {
            1int
        } else {
            0int
        }] == args.stream_url@,
{
}

} // verus!
