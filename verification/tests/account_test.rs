use ani_gui_core::account::{
    bounded_mal_ids, bridge_misses, build_entry_update, delete_verdict, merge_bridge_slots,
    pkce_for_kind, provider_is_supported, reconcile_monotonic, status_from_snake, status_to_snake,
    tokens_from_bearer, CurrentEntry, EntryUpdate, ListStatus, PkceMethod, ProviderKind,
    WATCH_LATER_BRIDGE_MAX_IDS,
};
use ani_gui_core::error::AniError;

fn progress_only(ep: u32) -> EntryUpdate {
    EntryUpdate {
        progress_episodes: Some(ep),
        ..Default::default()
    }
}

fn watching(ep: u32) -> EntryUpdate {
    EntryUpdate {
        status: Some(ListStatus::Watching),
        progress_episodes: Some(ep),
        ..Default::default()
    }
}

fn entry(status: ListStatus, ep: u32) -> Option<CurrentEntry> {
    Some(CurrentEntry {
        status,
        progress_episodes: ep,
    })
}

#[test]
fn reconcile_monotonic_clamps_progress_and_reconciles_status() {
    assert_eq!(reconcile_monotonic(progress_only(1), None), Some(watching(1)));
    assert_eq!(
        reconcile_monotonic(progress_only(6), entry(ListStatus::Planning, 0)),
        Some(watching(6))
    );
    assert_eq!(
        reconcile_monotonic(progress_only(3), entry(ListStatus::Planning, 10)),
        Some(EntryUpdate {
            status: Some(ListStatus::Watching),
            ..Default::default()
        })
    );
    assert_eq!(
        reconcile_monotonic(progress_only(6), entry(ListStatus::Rewatching, 5)),
        Some(progress_only(6))
    );
    assert_eq!(
        reconcile_monotonic(progress_only(6), entry(ListStatus::Watching, 5)),
        Some(progress_only(6))
    );
    assert_eq!(
        reconcile_monotonic(progress_only(3), entry(ListStatus::Watching, 10)),
        None
    );
    assert_eq!(
        reconcile_monotonic(progress_only(10), entry(ListStatus::Watching, 10)),
        None
    );
    let finale = EntryUpdate {
        status: Some(ListStatus::Completed),
        progress_episodes: Some(12),
        ..Default::default()
    };
    assert_eq!(
        reconcile_monotonic(finale, entry(ListStatus::Watching, 12)),
        Some(EntryUpdate {
            status: Some(ListStatus::Completed),
            progress_episodes: None,
            ..Default::default()
        })
    );
    let rescore = EntryUpdate {
        progress_episodes: Some(5),
        score_0_to_100: Some(90),
        ..Default::default()
    };
    assert_eq!(
        reconcile_monotonic(rescore, entry(ListStatus::Watching, 10)),
        Some(EntryUpdate {
            score_0_to_100: Some(90),
            ..Default::default()
        })
    );
}

#[test]
fn reconcile_monotonic_preserves_rewatching_at_finale() {
    let finale = |ep| EntryUpdate {
        status: Some(ListStatus::Completed),
        progress_episodes: Some(ep),
        ..Default::default()
    };
    assert_eq!(
        reconcile_monotonic(finale(12), entry(ListStatus::Rewatching, 11)),
        Some(EntryUpdate {
            progress_episodes: Some(12),
            ..Default::default()
        })
    );
    assert_eq!(
        reconcile_monotonic(finale(12), entry(ListStatus::Rewatching, 12)),
        None
    );
    assert_eq!(
        reconcile_monotonic(finale(12), entry(ListStatus::Watching, 11)),
        Some(finale(12))
    );
}

#[test]
fn build_entry_update_rejects_empty_and_unknown_status() {
    assert!(
        build_entry_update(None, None, None).is_err(),
        "all-absent update must be rejected"
    );
    assert!(
        build_entry_update(Some("not_a_status"), Some(5), None).is_err(),
        "unrecognized status must be rejected, not dropped to None"
    );
    let ok = build_entry_update(Some("watching"), Some(5), None).expect("valid update");
    assert_eq!(ok.status, Some(ListStatus::Watching));
    assert_eq!(ok.progress_episodes, Some(5));
    let progress_only = build_entry_update(None, Some(7), None).expect("progress-only ok");
    assert!(progress_only.status.is_none());
    assert_eq!(progress_only.progress_episodes, Some(7));
}

#[test]
fn pkce_for_kind_picks_method_per_provider() {
    assert_eq!(pkce_for_kind(ProviderKind::AniList).method, PkceMethod::S256);
    assert_eq!(
        pkce_for_kind(ProviderKind::MyAnimeList).method,
        PkceMethod::Plain
    );
    assert_eq!(pkce_for_kind(ProviderKind::InHouse).method, PkceMethod::S256);
}

#[test]
fn status_snake_round_trips_every_variant() {
    for s in [
        ListStatus::Planning,
        ListStatus::Watching,
        ListStatus::Completed,
        ListStatus::Paused,
        ListStatus::Dropped,
        ListStatus::Rewatching,
    ] {
        assert_eq!(status_from_snake(status_to_snake(s)), Some(s));
    }
}

#[test]
fn status_from_snake_returns_none_for_unknown() {
    assert_eq!(status_from_snake(""), None);
    assert_eq!(status_from_snake("Planning"), None);
    assert_eq!(status_from_snake("plan_to_watch"), None);
}

#[test]
fn tokens_from_bearer_drops_expiry_and_refresh() {
    let t = tokens_from_bearer("xyz");
    assert_eq!(t.access_token, "xyz");
    assert!(t.refresh_token.is_none());
    assert_eq!(t.expires_at_epoch_s, 0);
}

#[test]
fn watch_later_bridge_max_ids_is_a_sane_ceiling() {
    assert_eq!(WATCH_LATER_BRIDGE_MAX_IDS, 500);
}

#[test]
fn the_bridge_batch_is_truncated_in_order() {
    let ids: Vec<u32> = (1..=600).collect();
    let bounded = bounded_mal_ids(&ids);
    assert_eq!(bounded.len(), 500);
    assert_eq!(bounded[0], 1);
    assert_eq!(bounded[499], 500);
    let few = vec![7, 3];
    assert_eq!(bounded_mal_ids(&few), vec![7, 3]);
}

#[test]
fn bridge_slots_prefer_the_direct_hit_and_drop_unresolved() {
    let direct = vec![Some(10), None, None, Some(40)];
    let fallback = vec![Some(99), Some(20), None, None];
    assert_eq!(merge_bridge_slots(direct, fallback), vec![10, 20, 40]);
}

#[test]
fn bridge_misses_name_the_empty_slots_with_their_mal_ids() {
    let slots = vec![Some(10), None, Some(30), None];
    let ids = vec![101, 102, 103, 104];
    assert_eq!(bridge_misses(&slots, &ids), vec![(1, 102), (3, 104)]);
}

#[test]
fn a_failed_delete_counts_as_removed_only_when_the_entry_is_gone() {
    assert_eq!(delete_verdict(Ok(()), Ok(true)), Ok(true));
    assert_eq!(
        delete_verdict(Err(AniError::Upstream { status: 404 }), Ok(false)),
        Ok(true)
    );
    assert_eq!(
        delete_verdict(Err(AniError::Upstream { status: 500 }), Ok(true)),
        Err(AniError::Upstream { status: 500 })
    );
    assert_eq!(
        delete_verdict(Err(AniError::Network), Err(AniError::Timeout)),
        Err(AniError::Network)
    );
}

#[test]
fn only_the_external_trackers_have_a_provider() {
    assert!(provider_is_supported(ProviderKind::AniList));
    assert!(provider_is_supported(ProviderKind::MyAnimeList));
    assert!(!provider_is_supported(ProviderKind::InHouse));
}

#[test]
fn native_ids_follow_the_mapping_then_the_bridge() {
    // MAL: the mapped MAL id; without one, ask AniList for the MAL id
    // of the mapped AniList id.
    assert_eq!(bridge_needed_of(ProviderKind::MyAnimeList, Some(5), None), None);
    assert_eq!(
        ani_gui_core::account::native_media_id(ProviderKind::MyAnimeList, Some(5), Some(9), None),
        Some(5)
    );
    assert_eq!(
        bridge_needed_of(ProviderKind::MyAnimeList, None, Some(9)),
        Some(true)
    );
    assert_eq!(
        ani_gui_core::account::native_media_id(ProviderKind::MyAnimeList, None, Some(9), Some(77)),
        Some(77)
    );
    // AniList: bridge the mapped MAL id to a media id, else the mapped
    // AniList id.
    assert_eq!(
        bridge_needed_of(ProviderKind::AniList, Some(5), Some(9)),
        Some(false)
    );
    assert_eq!(
        ani_gui_core::account::native_media_id(ProviderKind::AniList, Some(5), Some(9), Some(123)),
        Some(123)
    );
    assert_eq!(
        ani_gui_core::account::native_media_id(ProviderKind::AniList, Some(5), Some(9), None),
        Some(9)
    );
    assert_eq!(
        ani_gui_core::account::native_media_id(ProviderKind::AniList, None, None, None),
        None
    );
    assert_eq!(
        ani_gui_core::account::native_media_id(ProviderKind::InHouse, Some(5), Some(9), Some(1)),
        None
    );
}

fn bridge_needed_of(kind: ProviderKind, mal: Option<u32>, anilist: Option<u32>) -> Option<bool> {
    ani_gui_core::account::bridge_needed(kind, mal, anilist)
}
