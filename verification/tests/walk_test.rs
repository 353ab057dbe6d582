use ani_gui_core::error::AniError;
use ani_gui_core::numbering::EpisodeRef;
use ani_gui_core::walk::{
    breaker_outcome, classify_chain_failure, find_episode, resolved_tag, walk_finish, walk_outcome,
    walk_start, walk_step, ChainOutcome, NativeError, ScrapeOutcome, WalkEvent,
};

fn ne(error: AniError, clean_miss: bool) -> NativeError {
    NativeError { error, clean_miss }
}

fn ep(id: u64, number: u32, tag: Option<&str>) -> EpisodeRef {
    EpisodeRef {
        id,
        number,
        number2: tag.map(str::to_string),
    }
}

#[test]
fn breaker_outcome_treats_answered_verdicts_as_health() {
    let absent_episode = ne(AniError::NoResults, false);
    assert!(matches!(breaker_outcome(&Err(absent_episode)), ScrapeOutcome::Success));
    let refusal = ne(AniError::Upstream { status: 403 }, false);
    assert!(matches!(breaker_outcome(&Err(refusal)), ScrapeOutcome::Failure));
    let limited = ne(
        AniError::RateLimited {
            retry_after_secs: Some(30),
        },
        false,
    );
    assert!(matches!(
        breaker_outcome(&Err(limited)),
        ScrapeOutcome::RateLimited { .. }
    ));
    let transport = ne(AniError::Network, false);
    assert!(matches!(breaker_outcome(&Err(transport)), ScrapeOutcome::Failure));
}

#[test]
fn an_http_429_is_a_rate_limit_to_the_breaker() {
    let limited = ne(AniError::Upstream { status: 429 }, false);
    assert!(matches!(
        breaker_outcome(&Err(limited)),
        ScrapeOutcome::RateLimited { retry_after: None }
    ));
}

#[test]
fn a_rate_limit_hint_is_carried_to_the_breaker() {
    let limited = ne(
        AniError::RateLimited {
            retry_after_secs: Some(30),
        },
        false,
    );
    assert_eq!(
        breaker_outcome(&Err(limited)),
        ScrapeOutcome::RateLimited {
            retry_after: Some(30)
        }
    );
    assert_eq!(
        breaker_outcome(&Err(ne(AniError::Network, true))),
        ScrapeOutcome::Success
    );
}

#[test]
fn chain_failures_split_into_stops_dead_ends_and_weather() {
    assert_eq!(
        classify_chain_failure(ne(AniError::Upstream { status: 403 }, false)),
        ChainOutcome::Stop(ne(AniError::Upstream { status: 403 }, false))
    );
    assert_eq!(
        classify_chain_failure(ne(AniError::GateRefused, false)),
        ChainOutcome::Stop(ne(AniError::GateRefused, false))
    );
    assert_eq!(classify_chain_failure(ne(AniError::NoResults, false)), ChainOutcome::DeadEnd);
    assert_eq!(
        classify_chain_failure(ne(AniError::Upstream { status: 404 }, false)),
        ChainOutcome::DeadEnd
    );
    assert_eq!(classify_chain_failure(ne(AniError::Network, false)), ChainOutcome::Transient);
}

#[test]
fn a_rejected_pool_keeps_the_walk_going() {
    let s = walk_step(walk_start(), WalkEvent::SearchAnswered).expect("goes on");
    let s = walk_step(s, WalkEvent::PickFailed(AniError::NoResults)).expect("the next alias");
    assert!(s.any_search_succeeded && !s.any_search_errored && !s.any_answered_dead_end);
}

#[test]
fn an_upstream_block_stops_the_walk_as_transient() {
    let err = walk_step(walk_start(), WalkEvent::SearchFailed(AniError::Upstream { status: 403 }))
        .expect_err("blocked");
    assert!(!err.clean_miss);
    assert!(matches!(err.error, AniError::Network | AniError::Upstream { .. }));
    let gate = walk_step(walk_start(), WalkEvent::SearchFailed(AniError::GateRefused))
        .expect_err("refused");
    assert_eq!(gate, ne(AniError::GateRefused, false));
}

#[test]
fn a_clean_all_empty_walk_is_the_only_persistable_miss() {
    let err = walk_outcome(&vec![WalkEvent::SearchAnswered, WalkEvent::SearchAnswered]);
    assert!(err.clean_miss);
    assert!(matches!(err.error, AniError::NoResults));
}

#[test]
fn an_unlisted_episode_is_a_dead_end_not_absence() {
    let err = walk_outcome(&vec![
        WalkEvent::SearchAnswered,
        WalkEvent::ChainFailed(AniError::NoResults),
    ]);
    assert!(!err.clean_miss);
    assert!(matches!(err.error, AniError::NoResults));
}

#[test]
fn weather_anywhere_makes_the_verdict_network() {
    let err = walk_outcome(&vec![
        WalkEvent::SearchFailed(AniError::Timeout),
        WalkEvent::SearchAnswered,
    ]);
    assert_eq!(err, ne(AniError::Network, false));
    let err = walk_outcome(&vec![
        WalkEvent::SearchAnswered,
        WalkEvent::PickFailed(AniError::Network),
        WalkEvent::SearchAnswered,
    ]);
    assert_eq!(err, ne(AniError::Network, false));
    assert_eq!(walk_outcome(&vec![]), ne(AniError::Network, false));
    assert_eq!(walk_finish(walk_start()), ne(AniError::Network, false));
}

#[test]
fn a_probe_block_ends_the_walk_with_its_identity() {
    let err = walk_outcome(&vec![
        WalkEvent::SearchAnswered,
        WalkEvent::PickFailed(AniError::RateLimited {
            retry_after_secs: Some(5),
        }),
        WalkEvent::SearchAnswered,
    ]);
    assert_eq!(
        err,
        ne(
            AniError::RateLimited {
                retry_after_secs: Some(5)
            },
            false
        )
    );
    let dead = walk_outcome(&vec![
        WalkEvent::SearchAnswered,
        WalkEvent::PickFailed(AniError::Upstream { status: 404 }),
    ]);
    assert_eq!(dead, ne(AniError::NoResults, false));
}

#[test]
fn an_integer_request_skips_the_recap_in_its_slot() {
    let eps = vec![
        ep(1, 1, None),
        ep(2, 2, None),
        ep(3, 3, None),
        ep(4, 4, Some("3.5")),
        ep(5, 5, Some("4")),
    ];
    assert_eq!(find_episode(&eps, "4"), Some(4));
    assert_eq!(find_episode(&eps, "3.5"), Some(3));
}

#[test]
fn a_recap_slot_without_its_true_episode_is_a_dead_end() {
    let eps = vec![ep(1, 1, None), ep(2, 2, None), ep(3, 3, None), ep(4, 4, Some("3.5"))];
    assert_eq!(find_episode(&eps, "4"), None);
}

#[test]
fn an_integer_display_tag_still_matches_through_the_offset() {
    let eps = vec![ep(10, 41, None), ep(11, 42, Some("42"))];
    assert_eq!(find_episode(&eps, "2"), Some(1));
    assert_eq!(find_episode(&eps, " 1 "), Some(0));
    assert_eq!(find_episode(&eps, "9"), None);
}

#[test]
fn the_resolved_tag_is_stamped_only_when_it_differs_from_the_slot() {
    assert_eq!(resolved_tag(&ep(1, 4, Some("3.5"))), Some("3.5".to_string()));
    assert_eq!(resolved_tag(&ep(1, 4, Some("4"))), None);
    assert_eq!(resolved_tag(&ep(1, 4, None)), None);
}
