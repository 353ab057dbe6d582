use ani_gui_core::airing::{
    airing_key, airing_lookup_needed, airing_ttl_for, AiringStatus, AIRING_GRACE_SECS,
    AIRING_TTL_MAX_SECS, AIRING_TTL_SECS,
};

#[test]
fn the_ttl_runs_until_just_after_the_next_episode() {
    let now = 1_000_000;
    assert_eq!(airing_ttl_for(Some(now + 3600), now), 3600 + 600);
    assert_eq!(airing_ttl_for(Some(now), now), AIRING_GRACE_SECS);
    assert_eq!(airing_ttl_for(Some(now - 5), now), 600);
    assert_eq!(airing_ttl_for(Some(now + 7 * 86_400), now), AIRING_TTL_MAX_SECS);
    assert_eq!(airing_ttl_for(None, now), AIRING_TTL_SECS);
    assert_eq!(AIRING_TTL_SECS, 3 * 60 * 60);
    assert_eq!(AIRING_TTL_MAX_SECS, 24 * 60 * 60);
    assert_eq!(airing_ttl_for(Some(u64::MAX), 0), AIRING_TTL_MAX_SECS);
}

#[test]
fn the_schedule_row_is_keyed_by_kitsu_id() {
    assert_eq!(airing_key("42"), "airing:v2:42");
}

#[test]
fn a_show_without_tracker_ids_gets_the_default_schedule() {
    assert!(!airing_lookup_needed(None, None));
    assert!(airing_lookup_needed(Some(1), None));
    assert!(airing_lookup_needed(None, Some(2)));
    assert_eq!(
        AiringStatus::default(),
        AiringStatus {
            aired: None,
            next_episode: None,
            next_airing_at: None
        }
    );
}
