use ani_gui_core::cour::{cour_from_slug, cour_from_title, cours_agree};

#[test]
fn title_cour_finds_trailing_part_n() {
    assert_eq!(
        cour_from_title("JoJo no Kimyou na Bouken Part 6: Stone Ocean Part 2"),
        Some(2)
    );
    assert_eq!(
        cour_from_title("JoJo no Kimyou na Bouken Part 6: Stone Ocean Part 3"),
        Some(3)
    );
}

#[test]
fn title_cour_returns_none_when_part_appears_only_mid_title() {
    assert_eq!(cour_from_title("JoJo no Kimyou na Bouken Part 6: Stone Ocean"), None);
}

#[test]
fn title_cour_accepts_cour_n_and_season_n() {
    assert_eq!(cour_from_title("Some Show Cour 2"), Some(2));
    assert_eq!(cour_from_title("Some Show Season 3"), Some(3));
}

#[test]
fn title_cour_is_case_insensitive() {
    assert_eq!(cour_from_title("Foo part 2"), Some(2));
    assert_eq!(cour_from_title("Foo PART 2"), Some(2));
    assert_eq!(cour_from_title("Foo SEASON 4"), Some(4));
}

#[test]
fn title_cour_returns_none_for_bare_titles() {
    assert_eq!(cour_from_title("Stone Ocean"), None);
    assert_eq!(cour_from_title("One Piece"), None);
    assert_eq!(cour_from_title(""), None);
}

#[test]
fn title_cour_strips_trailing_episode_count_suffix() {
    assert_eq!(
        cour_from_title("JoJo no Kimyou na Bouken Part 6: Stone Ocean Part 2 (12 episodes)"),
        Some(2)
    );
    assert_eq!(cour_from_title("Some Show Cour 3 (24 episodes)"), Some(3));
    assert_eq!(cour_from_title("Stone Ocean (12 episodes)"), None);
}

#[test]
fn slug_cour_finds_trailing_part_n() {
    assert_eq!(
        cour_from_slug("jojo-no-kimyou-na-bouken-part-6-stone-ocean-part-2"),
        Some(2)
    );
    assert_eq!(
        cour_from_slug("jojo-no-kimyou-na-bouken-part-6-stone-ocean-part-3"),
        Some(3)
    );
}

#[test]
fn slug_cour_returns_none_when_part_is_mid_slug() {
    assert_eq!(cour_from_slug("jojo-no-kimyou-na-bouken-part-6-stone-ocean"), None);
}

#[test]
fn slug_cour_accepts_cour_n_and_season_n() {
    assert_eq!(cour_from_slug("some-show-cour-2"), Some(2));
    assert_eq!(cour_from_slug("some-show-season-3"), Some(3));
}

#[test]
fn slug_cour_returns_none_for_bare_slugs() {
    assert_eq!(cour_from_slug("stone-ocean"), None);
    assert_eq!(cour_from_slug(""), None);
}

#[test]
fn mappings_agree_treats_both_none_as_cour_one() {
    assert!(cours_agree(None, None));
}

#[test]
fn mappings_agree_treats_explicit_one_as_default() {
    assert!(cours_agree(Some(1), None));
    assert!(cours_agree(None, Some(1)));
    assert!(cours_agree(Some(1), Some(1)));
}

#[test]
fn mappings_agree_rejects_cross_cour_pairing() {
    assert!(!cours_agree(Some(2), None));
    assert!(!cours_agree(Some(2), Some(1)));
    assert!(!cours_agree(Some(3), Some(2)));
}
