use ani_gui_core::resume::{pick_for_requested_show, Candidate};

fn cand(id: &str) -> Candidate {
    Candidate {
        id: id.into(),
        name: id.into(),
    }
}

#[test]
fn no_requested_show_id_keeps_the_heuristic_pick() {
    let (t, i, c) = pick_for_requested_show(None, Some(cand("h")), None, "T".into(), 2);
    assert_eq!(
        (t, i, c.map(|c| c.id)),
        ("T".to_string(), 2, Some("h".to_string()))
    );
}

#[test]
fn heuristic_that_already_matches_the_requested_id_is_kept() {
    let (_, _, c) = pick_for_requested_show(Some("x"), Some(cand("x")), None, "T".into(), 1);
    assert_eq!(c.map(|c| c.id), Some("x".to_string()));
}

#[test]
fn exact_match_overrides_a_mismatched_heuristic() {
    let exact = Some(("Real".to_string(), 3, cand("x")));
    let (t, i, c) = pick_for_requested_show(Some("x"), Some(cand("wrong")), exact, "T".into(), 1);
    assert_eq!(
        (t, i, c.map(|c| c.id)),
        ("Real".to_string(), 3, Some("x".to_string()))
    );
}

#[test]
fn requested_but_unresolved_drops_the_candidate_instead_of_launching_a_sibling() {
    let (_, _, c) = pick_for_requested_show(Some("x"), Some(cand("wrong")), None, "T".into(), 1);
    assert!(c.is_none(), "mismatched heuristic must be dropped, not launched");
}

#[test]
fn a_default_candidate_is_blank() {
    let c = Candidate::default();
    assert!(c.id.is_empty() && c.name.is_empty());
}
