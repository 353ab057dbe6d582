use ani_gui_core::error::AniError;
use ani_gui_core::external_player::ExternalPlayerKind;
use ani_gui_core::syncplay::{build_argv, prepare_syncplay, SyncplayLaunchArgs};

fn args(stream: &str, binary: &str) -> SyncplayLaunchArgs {
    SyncplayLaunchArgs {
        stream_url: stream.into(),
        binary: binary.into(),
        referer: None,
        subtitle_url: None,
        player_kind: ExternalPlayerKind::Mpv,
        player_binary: String::new(),
    }
}

#[test]
fn argv_emits_player_path_before_stream_when_set() {
    let mut a = args("https://example.com/master.m3u8", "syncplay");
    a.player_binary = "/usr/bin/vlc".into();
    a.player_kind = ExternalPlayerKind::Vlc;
    let v = build_argv(&a);
    assert_eq!(
        v,
        vec![
            "--player-path=/usr/bin/vlc".to_string(),
            "https://example.com/master.m3u8".to_string(),
        ]
    );
}

#[test]
fn argv_emits_player_path_alongside_post_separator_flags() {
    let mut a = args("https://example.com/master.m3u8", "syncplay");
    a.player_binary = "/usr/bin/vlc".into();
    a.player_kind = ExternalPlayerKind::Vlc;
    a.referer = Some("https://allmanga.to".into());
    let v = build_argv(&a);
    assert_eq!(
        v,
        vec![
            "--player-path=/usr/bin/vlc".to_string(),
            "https://example.com/master.m3u8".to_string(),
            "--".to_string(),
            "--http-referrer=https://allmanga.to".to_string(),
        ]
    );
}

#[test]
fn argv_omits_player_path_when_player_binary_empty() {
    let mut a = args("https://example.com/v.mp4", "syncplay");
    a.player_binary = String::new();
    let v = build_argv(&a);
    assert_eq!(v, vec!["https://example.com/v.mp4".to_string()]);
}

#[test]
fn argv_with_no_referer_is_just_the_url() {
    let v = build_argv(&args("https://example.com/master.m3u8", "syncplay"));
    assert_eq!(v, vec!["https://example.com/master.m3u8".to_string()]);
}

#[test]
fn argv_forwards_referer_after_separator() {
    let mut a = args("https://example.com/master.m3u8", "syncplay");
    a.referer = Some("https://allmanga.to".into());
    let v = build_argv(&a);
    assert_eq!(
        v,
        vec![
            "https://example.com/master.m3u8".to_string(),
            "--".to_string(),
            "--referrer=https://allmanga.to".to_string(),
        ]
    );
}

#[test]
fn argv_drops_empty_referer() {
    let mut a = args("https://example.com/v.mp4", "syncplay");
    a.referer = Some(String::new());
    let v = build_argv(&a);
    assert_eq!(v, vec!["https://example.com/v.mp4".to_string()]);
}

#[test]
fn argv_forwards_subtitle_after_separator() {
    let mut a = args("https://example.com/master.m3u8", "syncplay");
    a.subtitle_url = Some("https://example.com/subs.vtt".into());
    let v = build_argv(&a);
    assert_eq!(
        v,
        vec![
            "https://example.com/master.m3u8".to_string(),
            "--".to_string(),
            "--sub-file=https://example.com/subs.vtt".to_string(),
        ]
    );
}

#[test]
fn argv_forwards_referer_and_subtitle_together() {
    let mut a = args("https://example.com/master.m3u8", "syncplay");
    a.referer = Some("https://allmanga.to".into());
    a.subtitle_url = Some("https://example.com/subs.vtt".into());
    let v = build_argv(&a);
    assert_eq!(
        v,
        vec![
            "https://example.com/master.m3u8".to_string(),
            "--".to_string(),
            "--referrer=https://allmanga.to".to_string(),
            "--sub-file=https://example.com/subs.vtt".to_string(),
        ]
    );
}

#[test]
fn argv_drops_empty_subtitle() {
    let mut a = args("https://example.com/v.mp4", "syncplay");
    a.subtitle_url = Some(String::new());
    let v = build_argv(&a);
    assert_eq!(v, vec!["https://example.com/v.mp4".to_string()]);
}

#[test]
fn argv_for_vlc_uses_http_referrer() {
    let mut a = args("https://example.com/v.mp4", "syncplay");
    a.player_kind = ExternalPlayerKind::Vlc;
    a.referer = Some("https://allmanga.to".into());
    a.subtitle_url = Some("https://example.com/subs.vtt".into());
    let v = build_argv(&a);
    assert_eq!(
        v,
        vec![
            "https://example.com/v.mp4".to_string(),
            "--".to_string(),
            "--http-referrer=https://allmanga.to".to_string(),
            "--sub-file=https://example.com/subs.vtt".to_string(),
        ]
    );
}

#[test]
fn argv_for_iina_uses_mpv_prefixed_referrer() {
    let mut a = args("https://example.com/v.mp4", "syncplay");
    a.player_kind = ExternalPlayerKind::Iina;
    a.referer = Some("https://allmanga.to".into());
    a.subtitle_url = Some("https://example.com/subs.vtt".into());
    let v = build_argv(&a);
    assert_eq!(
        v,
        vec![
            "https://example.com/v.mp4".to_string(),
            "--".to_string(),
            "--mpv-referrer=https://allmanga.to".to_string(),
            "--sub-file=https://example.com/subs.vtt".to_string(),
        ]
    );
}

#[test]
fn argv_for_custom_emits_no_player_specific_flags() {
    let mut a = args("https://example.com/v.mp4", "syncplay");
    a.player_kind = ExternalPlayerKind::Custom;
    a.referer = Some("https://allmanga.to".into());
    a.subtitle_url = Some("https://example.com/subs.vtt".into());
    let v = build_argv(&a);
    assert_eq!(v, vec!["https://example.com/v.mp4".to_string()]);
}

#[test]
fn a_blank_binary_is_a_spawn_failure_naming_it() {
    match prepare_syncplay(&args("https://example.com/v.mp4", "")) {
        Err(AniError::SyncplaySpawnFailed { binary }) => assert!(binary.is_empty()),
        other => panic!("expected SyncplaySpawnFailed, got {other:?}"),
    }
    assert_eq!(
        prepare_syncplay(&args("https://example.com/v.mp4", "syncplay")),
        Ok(vec!["https://example.com/v.mp4".to_string()])
    );
}
