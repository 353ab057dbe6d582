use ani_gui_core::config::Config;
use ani_gui_core::error::AniError;
use ani_gui_core::external_player::{ExternalPlayerKind, LaunchArgs};
use ani_gui_core::play::{
    after_resolve, cache_hit_ep_no, check_upstream, effective_quality, handoff_launch,
    handoff_title, loose_bool, native_request, scrape_priority, split_joined_titles, stamp_plan,
    syncplay_handoff,
    upstream_verdict, PlayArgs, ScrapePriority, StampPlan,
};
use ani_gui_core::walk::{NativeError, NativeResolved};

fn play_args(title: &str, episode: &str) -> PlayArgs {
    PlayArgs {
        title: title.into(),
        episode: episode.into(),
        mode: "sub".into(),
        quality: None,
        subtype: None,
        episode_count: None,
        year: None,
        alt_titles: vec![],
        prefetch: false,
        kitsu_id: None,
    }
}

fn resolved() -> NativeResolved {
    NativeResolved {
        slug: "the-show-77".into(),
        title: "The Show".into(),
        master_url: "https://cdn.example/x/master.m3u8".into(),
        episode_cap: Some(3),
        numbering_offset: 0,
        extra_tags: vec![],
        resolved_slot: 2,
        resolved_tag: None,
    }
}

#[test]
fn play_args_quality_defaults_to_best() {
    let args = PlayArgs {
        title: "test".into(),
        episode: "1".into(),
        mode: "sub".into(),
        quality: None,
        subtype: None,
        episode_count: None,
        year: None,
        alt_titles: vec![],
        prefetch: false,
        kitsu_id: None,
    };
    assert_eq!(args.quality.as_deref().unwrap_or("best"), "best");
    assert_eq!(effective_quality(&args), "best");
}

#[test]
fn an_explicit_quality_is_kept() {
    let mut args = play_args("x", "1");
    args.quality = Some("720".into());
    assert_eq!(effective_quality(&args), "720");
    let req = native_request(&args);
    assert_eq!(req.quality, "720");
    assert_eq!(req.title, "x");
    assert_eq!(req.episode, "1");
}

#[test]
fn prefetches_are_background_work() {
    let mut args = play_args("x", "1");
    assert_eq!(scrape_priority(&args), ScrapePriority::Interactive);
    args.prefetch = true;
    assert_eq!(scrape_priority(&args), ScrapePriority::Background);
}

#[test]
fn an_exact_cap_is_stamped_only_for_a_positive_non_dub_answer() {
    assert_eq!(stamp_plan(Some("42"), "sub", true, Some(1061)), StampPlan::Exact { cap: 1061 });
    assert_eq!(
        stamp_plan(Some("42"), "dub", true, Some(1061)),
        StampPlan::Flag { available: true }
    );
    assert_eq!(stamp_plan(Some("42"), "sub", false, None), StampPlan::Flag { available: false });
    assert_eq!(stamp_plan(Some("42"), "sub", true, None), StampPlan::Flag { available: true });
    assert_eq!(stamp_plan(Some(""), "sub", true, Some(3)), StampPlan::Skip);
    assert_eq!(stamp_plan(None, "sub", true, Some(3)), StampPlan::Skip);
}

#[test]
fn only_a_clean_miss_is_stamped_as_absence() {
    let ok = after_resolve(&Ok(resolved()), false);
    assert_eq!((ok.stamp, ok.write_history, ok.error), (Some(true), true, None));
    let prefetched = after_resolve(&Ok(resolved()), true);
    assert!(!prefetched.write_history);
    let clean = after_resolve(
        &Err(NativeError {
            error: AniError::NoResults,
            clean_miss: true,
        }),
        false,
    );
    assert_eq!(clean.stamp, Some(false));
    assert_eq!(clean.error, Some(AniError::NoResults));
    let weather = after_resolve(
        &Err(NativeError {
            error: AniError::Network,
            clean_miss: false,
        }),
        false,
    );
    assert_eq!(weather.stamp, None);
    assert_eq!(weather.error, Some(AniError::Network));
}

#[test]
fn cache_hit_history_writes_the_providers_numbering() {
    assert_eq!(
        cache_hit_ep_no(false, "the-sequel-88", None, None, "1", 40),
        Some("41".to_string()),
        "provider numbering, not Kitsu's"
    );
}

#[test]
fn cache_hit_history_writes_the_cached_slot() {
    assert_eq!(
        cache_hit_ep_no(false, "the-show-77", Some(4), Some((4, "3.5")), "3.5", 0),
        Some("4".to_string())
    );
    assert_eq!(cache_hit_ep_no(true, "the-show-77", Some(4), None, "3", 0), None);
    assert_eq!(cache_hit_ep_no(false, "", Some(4), None, "3", 0), None);
    assert_eq!(
        cache_hit_ep_no(false, "the-show-77", None, Some((4, "3.5")), "3.5", 0),
        Some("4".to_string())
    );
}

#[test]
fn an_unparseable_upstream_url_is_a_parse_failure_naming_it() {
    assert_eq!(check_upstream("https://cdn.example/x/master.m3u8"), Ok(()));
    assert_eq!(
        check_upstream("not a url"),
        Err(AniError::ParseFailed {
            detail: "upstream_url: not a url is not a valid URL".into()
        })
    );
    assert_eq!(upstream_verdict("x", true), Ok(()));
    assert_eq!(
        upstream_verdict("x", false),
        Err(AniError::ParseFailed {
            detail: "upstream_url: x is not a valid URL".into()
        })
    );
}

#[test]
fn a_handoff_carries_the_title_and_the_players_settings() {
    assert_eq!(handoff_title("The Show", "3"), "The Show · ep 3");
    let cfg = Config {
        external_player: "vlc".into(),
        external_player_kind: ExternalPlayerKind::Vlc,
        ..Config::default()
    };
    let launch = handoff_launch("https://m/x.m3u8", &play_args("The Show", "3"), &cfg);
    assert_eq!(launch.stream_url, "https://m/x.m3u8");
    assert_eq!(launch.referer, None);
    assert_eq!(launch.title.as_deref(), Some("The Show · ep 3"));
    assert_eq!(launch.player_command, "vlc");
    assert_eq!(launch.player_kind, ExternalPlayerKind::Vlc);
    assert_eq!(launch.custom_args_template.as_deref(), Some(""));
}

#[test]
fn joined_title_lists_split_on_newlines_dropping_empties() {
    assert_eq!(split_joined_titles("a\nb\nc"), vec!["a", "b", "c"]);
    assert_eq!(split_joined_titles("a\n\nb"), vec!["a", "b"]);
    assert!(split_joined_titles("").is_empty());
    assert_eq!(split_joined_titles("\nx\n"), vec!["x"]);
}

#[test]
fn loose_flags_accept_only_the_truthy_strings() {
    for s in ["1", "true", "yes"] {
        assert!(loose_bool(s), "expected true for {s:?}");
    }
    for s in ["0", "false", "no", "wat", "", "TRUE"] {
        assert!(!loose_bool(s), "expected false for {s:?}");
    }
}

#[test]
fn syncplay_wraps_the_configured_external_player() {
    let cfg = Config {
        external_player: "/usr/bin/vlc".into(),
        external_player_kind: ExternalPlayerKind::Vlc,
        syncplay_binary: "/opt/syncplay".into(),
        ..Config::default()
    };
    let launch = LaunchArgs {
        stream_url: "https://cdn.example/x.m3u8".into(),
        referer: Some("https://allmanga.to".into()),
        subtitle_url: Some("https://cdn.example/x.vtt".into()),
        title: Some("Show · ep 1".into()),
        player_command: "mpv".into(),
        player_kind: ExternalPlayerKind::Mpv,
        custom_args_template: None,
    };
    let s = syncplay_handoff(&launch, &cfg);
    assert_eq!(s.stream_url, "https://cdn.example/x.m3u8");
    assert_eq!(s.binary, "/opt/syncplay");
    assert_eq!(s.referer.as_deref(), Some("https://allmanga.to"));
    assert_eq!(s.subtitle_url.as_deref(), Some("https://cdn.example/x.vtt"));
    assert_eq!(s.player_kind, ExternalPlayerKind::Vlc);
    assert_eq!(s.player_binary, "/usr/bin/vlc");
}
