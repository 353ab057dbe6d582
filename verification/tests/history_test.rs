use ani_gui_core::history::{
    history_by_kitsu, history_clear, history_delete, history_list, history_upsert, render_history,
    HistoryEntry,
};
use ani_gui_core::error::AniError;

fn entry(ep_no: &str, id: &str, title: &str) -> HistoryEntry {
    HistoryEntry {
        ep_no: ep_no.into(),
        id: id.into(),
        title: title.into(),
    }
}

#[test]
fn list_empty_when_file_missing() {
    let v = history_list("");
    assert!(v.is_empty());
}

#[test]
fn by_kitsu_returns_the_matching_entry() {
    let body = render_history(&vec![
        entry("5", "amA", "Show A (10 episodes)"),
        entry("12", "amB", "Show B (24 episodes)"),
    ]);
    let entries = history_list(&body);
    let mapped = vec![Ok(Some("K1".to_string())), Ok(Some("K2".to_string()))];
    let hit = history_by_kitsu(&entries, &mapped, "K2").unwrap().expect("match");
    assert_eq!(hit.id, "amB");
    assert_eq!(hit.ep_no, "12");
}

#[test]
fn by_kitsu_returns_none_when_no_history_entry_maps_to_id() {
    let entries = vec![entry("5", "amA", "Show A (10 episodes)")];
    let mapped = vec![Ok(Some("K1".to_string()))];
    assert!(history_by_kitsu(&entries, &mapped, "K-other").unwrap().is_none());
}

#[test]
fn by_kitsu_returns_none_when_history_is_empty() {
    assert!(history_by_kitsu(&vec![], &vec![], "K1").unwrap().is_none());
}

#[test]
fn by_kitsu_skips_entries_without_a_mapping_and_ignores_an_empty_id() {
    let entries = vec![entry("1", "a", "A"), entry("2", "b", "B")];
    let mapped = vec![Ok(None), Ok(Some("K2".to_string()))];
    assert_eq!(
        history_by_kitsu(&entries, &mapped, "K2").unwrap().map(|e| e.id),
        Some("b".into())
    );
    let blank = vec![Ok(Some(String::new())), Err(AniError::Cache)];
    assert!(history_by_kitsu(&entries, &blank, "").unwrap().is_none());
}

#[test]
fn by_kitsu_propagates_a_lookup_error_met_before_a_match() {
    let entries = vec![entry("1", "a", "A"), entry("2", "b", "B"), entry("3", "c", "C")];
    let failing_first = vec![Err(AniError::Cache), Ok(Some("K2".to_string())), Ok(None)];
    assert_eq!(history_by_kitsu(&entries, &failing_first, "K2"), Err(AniError::Cache));
    let failing_after = vec![Ok(None), Ok(Some("K2".to_string())), Err(AniError::Cache)];
    assert_eq!(
        history_by_kitsu(&entries, &failing_after, "K2").unwrap().map(|e| e.id),
        Some("b".into())
    );
}

#[test]
fn delete_removes_matching_row_and_preserves_others() {
    let entries = vec![
        entry("5", "amA", "Show A"),
        entry("12", "amB", "Show B"),
        entry("3", "amC", "Show C"),
    ];
    let (after, removed) = history_delete(&entries, "amB");
    assert!(removed, "delete reports true when a row is removed");
    assert_eq!(after.len(), 2);
    assert_eq!(after[0].id, "amA");
    assert_eq!(after[1].id, "amC");
}

#[test]
fn delete_unknown_id_is_idempotent_no_op() {
    let entries = vec![entry("5", "amA", "Show A")];
    let body_before = render_history(&entries);
    let (after, removed) = history_delete(&entries, "does-not-exist");
    assert!(!removed);
    assert_eq!(render_history(&after), body_before);
}

#[test]
fn delete_against_missing_file_returns_false() {
    let (after, removed) = history_delete(&history_list(""), "amA");
    assert!(!removed);
    assert!(after.is_empty());
}

#[test]
fn delete_with_empty_id_returns_false() {
    let entries = vec![entry("5", "amA", "Show A")];
    let (after, removed) = history_delete(&entries, "");
    assert!(!removed);
    assert_eq!(after.len(), 1);
}

#[test]
fn list_then_clear_round_trip() {
    let body = render_history(&vec![entry("5", "abc", "T (10 episodes)")]);
    let listed = history_list(&body);
    assert_eq!(listed.len(), 1);
    assert_eq!(listed[0].id, "abc");
    let cleared = history_clear();
    assert!(history_list(&cleared).is_empty());
}

#[test]
fn the_file_is_tab_separated_and_reads_back() {
    let entries = vec![entry("5", "amA", "Show A"), entry("12", "amB", "B\twith a tab")];
    let body = render_history(&entries);
    assert_eq!(body, "5\tamA\tShow A\n12\tamB\tB\twith a tab\n");
    assert_eq!(history_list(&body), entries);
    assert_eq!(history_list("x\ty\r\nonly-one-column\n").len(), 0);
    assert_eq!(history_list("1\tid\tTitle\r\n")[0].title, "Title");
}

#[test]
fn a_watch_updates_its_row_in_place_or_appends() {
    let entries = vec![entry("5", "amA", "Show A"), entry("3", "amB", "Show B")];
    let updated = history_upsert(&entries, &entry("6", "amA", "Show A"));
    assert_eq!(updated[0], entry("6", "amA", "Show A"));
    assert_eq!(updated[1], entry("3", "amB", "Show B"));
    let appended = history_upsert(&entries, &entry("1", "amC", "Show C"));
    assert_eq!(appended.len(), 3);
    assert_eq!(appended[2], entry("1", "amC", "Show C"));
}
