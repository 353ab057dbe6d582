use ani_gui_core::availability::{
    cache_key, generation_at_start, may_write_cache, mode_first, mode_next, prefix_asked_row,
    prefix_start, prefix_step, row_verdict, AvailabilityRefreshes, ModeStep, PrefixSearch,
    RowVerdict, MODE_PROBE_ROWS,
};
use ani_gui_core::error::AniError;

#[test]
fn an_ordinary_lookup_yields_to_a_refresh_that_landed_while_it_was_out() {
    let mut refreshes = AvailabilityRefreshes::new();
    let key = cache_key("kid-1", "sub");
    let started_at = refreshes.generation(&key);
    refreshes.bump(&key);
    assert!(!may_write_cache(&refreshes, &key, started_at, false));
}

#[test]
fn a_refresh_writes_even_when_another_refresh_landed_first() {
    let mut refreshes = AvailabilityRefreshes::new();
    let key = cache_key("kid-1", "sub");
    let started_at = refreshes.generation(&key);
    refreshes.bump(&key);
    assert!(may_write_cache(&refreshes, &key, started_at, true));
}

#[test]
fn an_undisturbed_lookup_still_writes() {
    let refreshes = AvailabilityRefreshes::new();
    let key = cache_key("kid-1", "sub");
    let started_at = refreshes.generation(&key);
    assert!(may_write_cache(&refreshes, &key, started_at, false));
}

#[test]
fn generations_do_not_leak_between_shows_or_modes() {
    let mut refreshes = AvailabilityRefreshes::new();
    let sub = cache_key("kid-1", "sub");
    let dub = cache_key("kid-1", "dub");
    let other = cache_key("kid-2", "sub");
    let sub_started = refreshes.generation(&sub);
    refreshes.bump(&dub);
    refreshes.bump(&other);
    assert!(may_write_cache(&refreshes, &sub, sub_started, false));
}

#[test]
fn generations_count_refreshes_per_row() {
    let mut refreshes = AvailabilityRefreshes::new();
    let key = cache_key("kid-1", "dub");
    assert_eq!(key, "availability:kid-1:dub");
    refreshes.bump(&key);
    refreshes.bump(&key);
    assert_eq!(refreshes.generation(&key), 2);
    assert_eq!(generation_at_start(&refreshes, Some("kid-1"), "dub"), 2);
    assert_eq!(generation_at_start(&refreshes, Some(""), "dub"), 0);
    assert_eq!(generation_at_start(&refreshes, None, "dub"), 0);
}

/// Drive a presence check over rows answered by `answer`.
fn presence(len: usize, answer: impl Fn(usize) -> Result<bool, AniError>) -> (ModeStep, Vec<usize>) {
    let mut asked = Vec::new();
    let mut step = mode_first(len);
    while let ModeStep::AskRow(i) = step {
        asked.push(i);
        step = mode_next(i, len, answer(i));
    }
    (step, asked)
}

fn dead() -> Result<bool, AniError> {
    Err(AniError::Upstream { status: 404 })
}

#[test]
fn a_present_mode_costs_one_request() {
    let (v, asked) = presence(12, |_| Ok(true));
    assert_eq!(v, ModeStep::Verdict(Some(true)));
    assert_eq!(asked, vec![0]);
}

#[test]
fn an_absent_mode_is_an_answered_negative() {
    let (v, asked) = presence(12, |_| Ok(false));
    assert_eq!(v, ModeStep::Verdict(Some(false)));
    assert_eq!(asked, vec![0]);
}

#[test]
fn a_dead_row_is_stepped_over_to_a_live_one() {
    let (v, asked) = presence(12, |i| if i == 0 { dead() } else { Ok(true) });
    assert_eq!(v, ModeStep::Verdict(Some(true)));
    assert_eq!(asked, vec![0, 1], "it stepped over exactly one");
}

#[test]
fn a_listing_of_dead_rows_yields_no_verdict() {
    let (v, _) = presence(4, |_| dead());
    assert_eq!(v, ModeStep::Verdict(None));
}

#[test]
fn the_step_over_is_bounded() {
    let (v, asked) = presence(64, |_| dead());
    assert_eq!(v, ModeStep::Verdict(None));
    assert!(asked.len() <= 8, "the search gives up rather than scanning: {}", asked.len());
    assert_eq!(asked.len(), MODE_PROBE_ROWS);
}

#[test]
fn an_empty_listing_carries_nothing() {
    let (v, asked) = presence(0, |_| Ok(true));
    assert_eq!(v, ModeStep::Verdict(Some(false)));
    assert!(asked.is_empty());
}

#[test]
fn weather_propagates_instead_of_deciding() {
    let (v, _) = presence(4, |_| Err(AniError::Network));
    assert_eq!(v, ModeStep::Failed(AniError::Network));
    let (v, _) = presence(4, |_| Err(AniError::Upstream { status: 403 }));
    assert_eq!(v, ModeStep::Failed(AniError::Upstream { status: 403 }));
}

#[test]
fn a_rows_answer_reads_as_a_verdict_a_dead_row_or_weather() {
    assert_eq!(row_verdict(Ok(true)), RowVerdict::Has(true));
    assert_eq!(row_verdict(dead()), RowVerdict::Dead);
    assert_eq!(
        row_verdict(Err(AniError::Upstream { status: 429 })),
        RowVerdict::Weather(AniError::Upstream { status: 429 })
    );
}

/// Run a coverage search against a listing whose first `p` rows carry
/// the mode.
fn coverage(len: usize, p: usize) -> (usize, usize) {
    let mut s = prefix_start(len);
    let mut asked = 0;
    while let Some(row) = prefix_asked_row(s) {
        asked += 1;
        s = prefix_step(s, row < p);
    }
    match s {
        PrefixSearch::Done { covered } => (covered, asked),
        _ => unreachable!(),
    }
}

#[test]
fn the_bisection_finds_every_prefix() {
    for len in 0..40usize {
        for p in 0..=len {
            let (covered, asked) = coverage(len, p);
            assert_eq!(covered, p, "len {len}, prefix {p}");
            assert!(asked <= 2 + 6, "len {len}, prefix {p}: {asked} requests");
        }
    }
}

#[test]
fn a_fully_covered_listing_costs_one_request() {
    assert_eq!(coverage(1000, 1000), (1000, 1));
    assert_eq!(coverage(1000, 0), (0, 2));
    let (covered, asked) = coverage(1000, 2);
    assert_eq!(covered, 2);
    assert!(asked <= 12);
}
