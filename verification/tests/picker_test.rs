use ani_gui_core::error::AniError;
use ani_gui_core::picker::{
    choose_probed, countless_order, countless_outcome, countless_step, ep_count_threshold,
    first_argmin, format_category, format_compatible, format_survivors, identity_rank, pick_head,
    title_matches, title_needle, year_filtered, year_verdict, BrowseHit, CountlessStep,
    FormatCategory, HeadCandidate, ProbeOutcome, YearVerdict, MAX_PROBED_CANDIDATES,
};

fn hit(slug: &str, title: &str, kind: Option<&str>) -> BrowseHit {
    BrowseHit {
        slug: slug.into(),
        title: title.into(),
        kind: kind.map(str::to_string),
    }
}

fn listed(episodes: u32, title_matches: bool, confirmed: bool) -> ProbeOutcome {
    ProbeOutcome::Listed {
        episodes,
        title_matches,
        confirmed,
    }
}

fn head(slug: &str, title_matches: bool, confirmed: bool) -> HeadCandidate {
    HeadCandidate {
        slug: slug.into(),
        title_matches,
        confirmed,
    }
}

#[test]
fn threshold_is_a_floor_of_three_with_proportional_slack() {
    assert_eq!(ep_count_threshold(1), 3);
    assert_eq!(ep_count_threshold(24), 3);
    assert_eq!(ep_count_threshold(1100), 110);
}

#[test]
fn expected_count_picks_the_closest_probed_candidate() {
    let probes = vec![listed(1, false, false), listed(12, false, false), listed(26, false, false)];
    assert_eq!(choose_probed(&probes, 12), Ok(1));
}

#[test]
fn best_distance_beyond_threshold_is_rejected_not_guessed() {
    let probes = vec![listed(50, false, false), listed(100, false, false)];
    assert_eq!(choose_probed(&probes, 12), Err(AniError::NoResults));
}

#[test]
fn ties_prefer_the_exact_title_match() {
    let probes = vec![listed(12, false, false), listed(12, true, false)];
    assert_eq!(choose_probed(&probes, 12), Ok(1));
}

#[test]
fn a_year_match_beats_count_tied_cour_siblings() {
    let probes = vec![listed(12, false, false), listed(12, false, true)];
    assert_eq!(choose_probed(&probes, 12), Ok(1));
    let full_tie = vec![listed(12, false, false), listed(12, false, false)];
    assert_eq!(choose_probed(&full_tie, 12), Ok(0), "provider order breaks a full tie");
}

#[test]
fn a_lone_airing_part_with_a_confirmed_year_survives_the_count_gap() {
    assert_eq!(choose_probed(&vec![listed(4, false, true)], 24), Ok(0));
    assert_eq!(
        choose_probed(&vec![listed(4, false, false)], 24),
        Err(AniError::NoResults),
        "an off-by-one year carries no identity for the rescue"
    );
    assert_eq!(
        choose_probed(&vec![listed(40, false, true)], 24),
        Err(AniError::NoResults),
        "only a short listing is an airing part"
    );
}

#[test]
fn probe_failures_skip_candidates_or_stop_the_pick() {
    let skipped = vec![ProbeOutcome::Failed(AniError::Network), listed(12, false, false)];
    assert_eq!(choose_probed(&skipped, 12), Ok(1));
    let blocked = vec![
        listed(12, false, false),
        ProbeOutcome::Failed(AniError::Upstream { status: 403 }),
    ];
    assert_eq!(choose_probed(&blocked, 12), Err(AniError::Upstream { status: 403 }));
    let refused = vec![ProbeOutcome::Failed(AniError::GateRefused)];
    assert_eq!(choose_probed(&refused, 12), Err(AniError::GateRefused));
}

#[test]
fn an_all_not_found_pool_is_an_answered_dead_end() {
    let probes = vec![
        ProbeOutcome::Failed(AniError::Upstream { status: 404 }),
        ProbeOutcome::Failed(AniError::Upstream { status: 404 }),
    ];
    assert_eq!(choose_probed(&probes, 12), Err(AniError::Upstream { status: 404 }));
}

#[test]
fn all_probes_dying_on_transport_stays_transient() {
    let probes = vec![
        ProbeOutcome::Failed(AniError::Upstream { status: 404 }),
        ProbeOutcome::Failed(AniError::Timeout),
    ];
    assert_eq!(choose_probed(&probes, 12), Err(AniError::Network));
}

#[test]
fn the_first_minimal_key_wins() {
    assert_eq!(first_argmin(&vec![None, Some(3), Some(1), Some(1)]), Some(2));
    assert_eq!(first_argmin(&vec![None, None]), None);
}

#[test]
fn format_tags_fold_case_and_unify_web_with_ona() {
    assert_eq!(format_category("Movie"), Some(FormatCategory::Movie));
    assert_eq!(format_category("WEB"), Some(FormatCategory::Ona));
    assert_eq!(format_category("ONA"), Some(FormatCategory::Ona));
    assert_eq!(format_category("Music"), None);
}

#[test]
fn a_movie_badge_is_disproof_against_a_multi_episode_expectation() {
    assert!(!format_compatible(Some("Movie"), Some(12), None));
    assert!(format_compatible(Some("Movie"), Some(1), None));
    assert!(format_compatible(Some("TV"), Some(12), None));
    assert!(format_compatible(None, Some(12), None));
}

#[test]
fn a_movie_badge_is_disproof_against_a_special_subtype() {
    assert!(!format_compatible(Some("Movie"), Some(1), Some("special")));
    assert!(!format_compatible(Some("TV"), None, Some("movie")));
    assert!(format_compatible(Some("Music"), None, Some("movie")), "unknown badges survive");
    assert!(format_compatible(Some("Movie"), None, Some("movie")));
}

#[test]
fn format_incompatible_hits_do_not_crowd_the_probe_head() {
    let mut hits: Vec<BrowseHit> = (0..6)
        .map(|i| hit(&format!("movie-{i}"), "Decoy", Some("Movie")))
        .collect();
    hits.push(hit("the-show", "The Show", Some("TV")));
    let head = pick_head(&hits, Some(12), None).expect("the show survives");
    assert_eq!(head.len(), 1);
    assert_eq!(head[0].slug, "the-show");
    assert_eq!(format_survivors(&hits, Some(12), None).len(), 1);
}

#[test]
fn the_probe_head_is_bounded_and_an_empty_pool_is_no_results() {
    let hits: Vec<BrowseHit> = (0..9).map(|i| hit(&format!("s{i}"), "S", None)).collect();
    let head = pick_head(&hits, None, None).expect("head");
    assert_eq!(head.len(), MAX_PROBED_CANDIDATES);
    assert_eq!(head[4].slug, "s4");
    assert_eq!(pick_head(&[], None, None), Err(AniError::NoResults));
    let movies = vec![hit("m", "M", Some("Movie"))];
    assert_eq!(pick_head(&movies, Some(12), None), Err(AniError::NoResults));
}

#[test]
fn year_mismatches_are_excluded_before_scoring() {
    assert_eq!(year_verdict(Some(2020), 2020), YearVerdict::Confirmed);
    assert_eq!(year_verdict(Some(2019), 2020), YearVerdict::Tolerated);
    assert_eq!(year_verdict(Some(2021), 2020), YearVerdict::Tolerated);
    assert_eq!(year_verdict(Some(1990), 2020), YearVerdict::Excluded);
    assert_eq!(year_verdict(None, 2020), YearVerdict::Unknown);
    let (kept, excluded) = year_filtered(&[
        YearVerdict::Excluded,
        YearVerdict::Confirmed,
        YearVerdict::Unknown,
        YearVerdict::Tolerated,
    ])
    .expect("kept");
    assert_eq!(kept, vec![(1, true), (2, false), (3, false)]);
    assert!(excluded);
}

#[test]
fn an_all_mismatched_pool_is_rejected_so_the_walk_moves_on() {
    assert_eq!(
        year_filtered(&[YearVerdict::Excluded, YearVerdict::Excluded]),
        Err(AniError::NoResults)
    );
}

#[test]
fn titles_compare_trimmed_and_lowercased() {
    let needle = title_needle("  The Show ");
    assert_eq!(needle, "the show");
    assert!(title_matches("THE SHOW", &needle));
    assert!(!title_matches("The Show 2", &needle));
    assert_eq!(identity_rank(true, false), 0);
    assert_eq!(identity_rank(false, true), 1);
    assert_eq!(identity_rank(false, false), 2);
}

#[test]
fn a_countless_pick_prefers_exact_then_confirmed_then_position() {
    let pool = vec![head("a", false, false), head("b", false, true), head("c", true, false)];
    assert_eq!(countless_order(&pool, false), vec![2, 1, 0]);
    assert_eq!(countless_order(&pool, true), vec![2, 1]);
    let garbage = vec![head("a", false, false)];
    assert!(countless_order(&garbage, true).is_empty());
}

#[test]
fn a_countless_order_never_repeats_a_slug() {
    let pool = vec![head("a", true, true), head("a", false, true), head("b", false, false)];
    assert_eq!(countless_order(&pool, false), vec![0, 2]);
}

#[test]
fn a_countless_pick_steps_over_dead_listings_only() {
    assert_eq!(countless_step(&Ok(())), CountlessStep::Take);
    assert_eq!(
        countless_step(&Err(AniError::Upstream { status: 404 })),
        CountlessStep::Next
    );
    assert_eq!(
        countless_step(&Err(AniError::Upstream { status: 403 })),
        CountlessStep::Stop
    );
    assert_eq!(countless_step(&Err(AniError::Network)), CountlessStep::Stop);
    assert_eq!(
        countless_outcome(&vec![Err(AniError::Upstream { status: 404 }), Ok(()), Ok(())]),
        Ok(1)
    );
    assert_eq!(
        countless_outcome(&vec![Err(AniError::Upstream { status: 404 })]),
        Err(AniError::NoResults)
    );
    assert_eq!(countless_outcome(&vec![]), Err(AniError::NoResults));
    assert_eq!(
        countless_outcome(&vec![Err(AniError::GateRefused), Ok(())]),
        Err(AniError::GateRefused)
    );
}
