use ani_gui_core::error::AniError;
use ani_gui_core::external_player::{build_argv, prepare_launch, ExternalPlayerKind, LaunchArgs};

fn args(stream: &str) -> LaunchArgs {
    LaunchArgs {
        stream_url: stream.into(),
        referer: None,
        subtitle_url: None,
        title: None,
        player_command: "mpv".into(),
        player_kind: ExternalPlayerKind::Mpv,
        custom_args_template: None,
    }
}

#[test]
fn argv_with_only_stream_is_a_single_arg() {
    let v = build_argv(&args("https://example.com/v.mp4"));
    assert_eq!(v, vec!["https://example.com/v.mp4".to_string()]);
}

#[test]
fn argv_includes_force_media_title_when_present() {
    let mut a = args("https://example.com/v.mp4");
    a.title = Some("Test Anime Episode 1".into());
    let v = build_argv(&a);
    assert_eq!(
        v,
        vec![
            "--force-media-title=Test Anime Episode 1".to_string(),
            "https://example.com/v.mp4".to_string(),
        ]
    );
}

#[test]
fn argv_emits_title_then_referer_then_url() {
    let mut a = args("https://example.com/master.m3u8");
    a.title = Some("T".into());
    a.referer = Some("https://cdn.example".into());
    let v = build_argv(&a);
    assert_eq!(
        v,
        vec![
            "--force-media-title=T".to_string(),
            "--referrer=https://cdn.example".to_string(),
            "https://example.com/master.m3u8".to_string(),
        ]
    );
}

#[test]
fn argv_for_vlc_uses_vlc_flag_syntax() {
    let mut a = args("https://example.com/master.m3u8");
    a.player_kind = ExternalPlayerKind::Vlc;
    a.title = Some("T".into());
    a.referer = Some("https://cdn.example".into());
    let v = build_argv(&a);
    assert_eq!(
        v,
        vec![
            "--meta-title=T".to_string(),
            "--http-referrer=https://cdn.example".to_string(),
            "https://example.com/master.m3u8".to_string(),
        ]
    );
}

#[test]
fn argv_for_iina_uses_mpv_prefixed_flags() {
    let mut a = args("https://example.com/v.mp4");
    a.player_kind = ExternalPlayerKind::Iina;
    a.title = Some("T".into());
    a.referer = Some("https://cdn.example".into());
    let v = build_argv(&a);
    assert_eq!(
        v,
        vec![
            "--mpv-force-media-title=T".to_string(),
            "--mpv-referrer=https://cdn.example".to_string(),
            "https://example.com/v.mp4".to_string(),
        ]
    );
}

#[test]
fn argv_for_custom_kind_substitutes_placeholders() {
    let mut a = args("https://example.com/v.mp4");
    a.player_kind = ExternalPlayerKind::Custom;
    a.title = Some("My Show".into());
    a.referer = Some("https://cdn.example".into());
    a.custom_args_template = Some("--ref={referer} --title={title} {url}".into());
    let v = build_argv(&a);
    assert_eq!(
        v,
        vec![
            "--ref=https://cdn.example".to_string(),
            "--title=My Show".to_string(),
            "https://example.com/v.mp4".to_string(),
        ]
    );
}

#[test]
fn argv_for_custom_drops_tokens_with_missing_placeholders() {
    let mut a = args("https://example.com/v.mp4");
    a.player_kind = ExternalPlayerKind::Custom;
    a.referer = Some("https://cdn.example".into());
    a.custom_args_template = Some("--ref={referer} --title={title} {url}".into());
    let v = build_argv(&a);
    assert_eq!(
        v,
        vec![
            "--ref=https://cdn.example".to_string(),
            "https://example.com/v.mp4".to_string(),
        ]
    );
}

#[test]
fn argv_for_custom_with_empty_template_falls_back_to_url_only() {
    let mut a = args("https://example.com/v.mp4");
    a.player_kind = ExternalPlayerKind::Custom;
    a.custom_args_template = None;
    let v = build_argv(&a);
    assert_eq!(v, vec!["https://example.com/v.mp4".to_string()]);
}

#[test]
fn a_custom_template_keeps_quoted_tokens_whole() {
    let mut a = args("https://example.com/v.mp4");
    a.player_kind = ExternalPlayerKind::Custom;
    a.title = Some("My Show".into());
    a.custom_args_template = Some("--x \"{title} here\" {url}".into());
    let v = build_argv(&a);
    assert_eq!(
        v,
        vec![
            "--x".to_string(),
            "My Show here".to_string(),
            "https://example.com/v.mp4".to_string(),
        ]
    );
}

#[test]
fn subtitles_ride_along_for_mpv() {
    let mut a = args("https://example.com/v.mp4");
    a.subtitle_url = Some("https://example.com/s.vtt".into());
    let v = build_argv(&a);
    assert!(v.contains(&"--sub-file=https://example.com/s.vtt".to_string()));
    assert_eq!(v.last().unwrap(), "https://example.com/v.mp4");
}

#[test]
fn a_blank_player_command_is_a_spawn_failure_naming_it() {
    let mut a = args("https://example.com/v.mp4");
    a.player_command = String::new();
    match prepare_launch(&a) {
        Err(AniError::PlayerSpawnFailed { binary }) => assert!(binary.is_empty()),
        other => panic!("expected PlayerSpawnFailed, got {other:?}"),
    }
    a.player_command = "   ".into();
    assert_eq!(
        prepare_launch(&a),
        Err(AniError::PlayerSpawnFailed {
            binary: "   ".into()
        })
    );
    let ok = prepare_launch(&args("https://example.com/v.mp4")).expect("launchable");
    assert_eq!(ok, vec!["https://example.com/v.mp4".to_string()]);
}
