use ani_gui_core::thumbs::{
    anilist_eps_thumbs_key, merge_thumbs, needs_backfill, KitsuEpisode, KitsuEpisodeThumbnail,
};
use std::collections::HashMap;

fn ep_with(num: u32, thumb: Option<&str>) -> KitsuEpisode {
    KitsuEpisode {
        id: format!("e{num}"),
        canonical_title: Some(format!("Ep {num}")),
        season_number: Some(1),
        number: Some(num),
        relative_number: Some(num),
        length: None,
        synopsis: None,
        airdate: None,
        thumbnail: thumb.map(|t| KitsuEpisodeThumbnail {
            original: Some(t.to_string()),
        }),
    }
}

fn thumb(e: &KitsuEpisode) -> &str {
    e.thumbnail.as_ref().unwrap().original.as_deref().unwrap()
}

#[test]
fn merge_thumbs_keeps_kitsu_thumb_when_present() {
    let eps = vec![ep_with(1, Some("https://kitsu.cdn/1.jpg"))];
    let mut anilist = HashMap::new();
    anilist.insert(1u32, "https://crunchyroll.cdn/1.jpg".to_string());
    let merged = merge_thumbs(eps, &anilist);
    assert_eq!(thumb(&merged[0]), "https://kitsu.cdn/1.jpg");
}

#[test]
fn merge_thumbs_fills_null_thumb_from_anilist() {
    let eps = vec![ep_with(54, None)];
    let mut anilist = HashMap::new();
    anilist.insert(54u32, "https://crunchyroll.cdn/54.jpg".to_string());
    let merged = merge_thumbs(eps, &anilist);
    assert_eq!(thumb(&merged[0]), "https://crunchyroll.cdn/54.jpg");
}

#[test]
fn merge_thumbs_leaves_null_thumb_when_anilist_missing() {
    let eps = vec![ep_with(131, None)];
    let anilist = HashMap::<u32, String>::new();
    let merged = merge_thumbs(eps, &anilist);
    assert!(merged[0].thumbnail.is_none());
}

#[test]
fn merge_thumbs_handles_mixed_pool() {
    let eps = vec![
        ep_with(53, Some("https://kitsu.cdn/53.jpg")),
        ep_with(54, None),
        ep_with(62, None),
        ep_with(130, None),
    ];
    let mut anilist = HashMap::new();
    anilist.insert(62u32, "https://cr.cdn/62.jpg".to_string());
    anilist.insert(130u32, "https://cr.cdn/130.jpg".to_string());
    let merged = merge_thumbs(eps, &anilist);
    assert_eq!(thumb(&merged[0]), "https://kitsu.cdn/53.jpg");
    assert!(merged[1].thumbnail.is_none());
    assert_eq!(thumb(&merged[2]), "https://cr.cdn/62.jpg");
    assert_eq!(thumb(&merged[3]), "https://cr.cdn/130.jpg");
}

#[test]
fn merge_thumbs_skips_eps_without_number() {
    let mut ep = ep_with(1, None);
    ep.number = None;
    let eps = vec![ep];
    let mut anilist = HashMap::new();
    anilist.insert(1u32, "https://cr.cdn/1.jpg".to_string());
    let merged = merge_thumbs(eps, &anilist);
    assert!(merged[0].thumbnail.is_none());
}

#[test]
fn merge_thumbs_replaces_thumbnail_with_only_null_original() {
    let mut ep = ep_with(1, None);
    ep.thumbnail = Some(KitsuEpisodeThumbnail { original: None });
    let eps = vec![ep];
    let mut anilist = HashMap::new();
    anilist.insert(1u32, "https://cr.cdn/1.jpg".to_string());
    let merged = merge_thumbs(eps, &anilist);
    assert_eq!(thumb(&merged[0]), "https://cr.cdn/1.jpg");
}

#[test]
fn anilist_eps_thumbs_key_namespace_separates_kitsu_ids() {
    assert_eq!(anilist_eps_thumbs_key("12"), "anilist:eps-thumbs:v1:k12");
    assert_eq!(anilist_eps_thumbs_key("818"), "anilist:eps-thumbs:v1:k818");
    assert_ne!(anilist_eps_thumbs_key("12"), anilist_eps_thumbs_key("818"));
}

#[test]
fn needs_backfill_false_when_every_ep_has_thumb() {
    let eps = vec![
        ep_with(1, Some("https://kitsu.cdn/1.jpg")),
        ep_with(2, Some("https://kitsu.cdn/2.jpg")),
        ep_with(3, Some("https://kitsu.cdn/3.jpg")),
    ];
    assert!(!needs_backfill(&eps));
}

#[test]
fn needs_backfill_true_when_at_least_one_ep_missing_thumb() {
    let eps = vec![ep_with(1, Some("https://kitsu.cdn/1.jpg")), ep_with(54, None)];
    assert!(needs_backfill(&eps));
}

#[test]
fn needs_backfill_true_when_thumb_object_present_but_original_null() {
    let mut ep = ep_with(1, None);
    ep.thumbnail = Some(KitsuEpisodeThumbnail { original: None });
    assert!(needs_backfill(&[ep]));
}

#[test]
fn needs_backfill_skips_eps_without_number() {
    let mut ep = ep_with(1, None);
    ep.number = None;
    let eps = vec![ep, ep_with(2, Some("https://kitsu.cdn/2.jpg"))];
    assert!(!needs_backfill(&eps));
}

#[test]
fn needs_backfill_false_for_empty_page() {
    assert!(!needs_backfill(&[]));
}

#[test]
fn the_merge_keeps_everything_but_the_thumbnail() {
    let eps = vec![ep_with(7, None)];
    let mut anilist = HashMap::new();
    anilist.insert(7u32, "https://cr.cdn/7.jpg".to_string());
    let merged = merge_thumbs(eps.clone(), &anilist);
    assert_eq!(merged[0].id, eps[0].id);
    assert_eq!(merged[0].canonical_title, eps[0].canonical_title);
    assert_eq!(merged[0].number, eps[0].number);
}

#[test]
fn an_unmatched_episode_with_a_null_thumbnail_passes_through_unchanged() {
    let mut e = ep_with(7, None);
    e.thumbnail = Some(KitsuEpisodeThumbnail { original: None });
    let mut anilist = HashMap::new();
    anilist.insert(8u32, "https://crunchyroll.cdn/8.jpg".to_string());
    let merged = merge_thumbs(vec![e.clone()], &anilist);
    assert_eq!(merged, vec![e]);
}
