use ani_gui_core::numbering::{
    extra_episode_tags, kitsu_episode_cap, numbering_offset, per_entry_fraction, provider_fraction,
    regular_episode_count, EpisodeRef,
};

fn ep(id: u64, number: u32, tag: Option<&str>) -> EpisodeRef {
    EpisodeRef {
        id,
        number,
        number2: tag.map(str::to_string),
    }
}

#[test]
fn offsets_derive_from_display_identities() {
    let eps = vec![
        EpisodeRef {
            id: 10,
            number: 1,
            number2: Some("41".into()),
        },
        EpisodeRef {
            id: 11,
            number: 2,
            number2: Some("42".into()),
        },
    ];
    assert_eq!(numbering_offset(&eps), 40);
    assert_eq!(kitsu_episode_cap(&eps), Some(2));
}

#[test]
fn fractional_extras_are_advertised_in_per_entry_numbering() {
    let eps = vec![
        EpisodeRef {
            id: 10,
            number: 1,
            number2: Some("41".into()),
        },
        EpisodeRef {
            id: 12,
            number: 2,
            number2: Some("41.5".into()),
        },
        EpisodeRef {
            id: 11,
            number: 3,
            number2: Some("42".into()),
        },
    ];
    assert_eq!(extra_episode_tags(&eps), vec!["1.5".to_string()]);
}

#[test]
fn the_cap_counts_display_identities_not_integer_slots() {
    let eps = vec![
        EpisodeRef {
            id: 1,
            number: 1,
            number2: None,
        },
        EpisodeRef {
            id: 2,
            number: 2,
            number2: None,
        },
        EpisodeRef {
            id: 3,
            number: 3,
            number2: Some("2.5".into()),
        },
    ];
    assert_eq!(kitsu_episode_cap(&eps), Some(2));
}

#[test]
fn extras_are_the_non_integer_display_tags_in_listing_order() {
    let eps = vec![
        EpisodeRef {
            id: 1,
            number: 1,
            number2: None,
        },
        EpisodeRef {
            id: 2,
            number: 2,
            number2: Some("42".into()),
        },
        EpisodeRef {
            id: 3,
            number: 3,
            number2: Some("2.5".into()),
        },
        EpisodeRef {
            id: 4,
            number: 4,
            number2: Some("1061.5".into()),
        },
    ];
    assert_eq!(
        extra_episode_tags(&eps),
        vec!["2.5".to_string(), "1061.5".to_string()]
    );
}

#[test]
fn an_empty_listing_shifts_nothing_and_has_no_cap() {
    assert_eq!(numbering_offset(&[]), 0);
    assert_eq!(kitsu_episode_cap(&[]), None);
    assert!(extra_episode_tags(&[]).is_empty());
    assert_eq!(regular_episode_count(&[]), 0);
}

#[test]
fn a_continuation_cour_shifts_by_its_lowest_identity() {
    let eps = vec![ep(1, 41, None), ep(2, 42, None), ep(3, 43, Some("42.5"))];
    assert_eq!(numbering_offset(&eps), 40);
    assert_eq!(kitsu_episode_cap(&eps), Some(2));
    assert_eq!(regular_episode_count(&eps), 2);
    assert_eq!(extra_episode_tags(&eps), vec!["2.5".to_string()]);
}

#[test]
fn fraction_translation_goes_both_ways() {
    assert_eq!(provider_fraction("1.5", 40), "41.5");
    assert_eq!(per_entry_fraction("41.5", 40), "1.5");
    assert_eq!(per_entry_fraction("3.5", 40), "3.5");
    assert_eq!(provider_fraction("recap", 40), "recap");
}
