use ani_gui_core::config::{Config, DEFAULT_SYNCPLAY_BINARY};
use ani_gui_core::external_player::ExternalPlayerKind;

#[test]
fn defaults_match_ani_cli_defaults() {
    let c = Config::default();
    assert_eq!(c.mode, "sub");
    assert_eq!(c.quality, "best");
    assert_eq!(c.external_player, "mpv");
}

#[test]
fn auto_play_next_defaults_to_false() {
    assert!(!Config::default().auto_play_next);
}

#[test]
fn auto_skip_defaults_to_false() {
    let c = Config::default();
    assert!(!c.auto_skip_op);
    assert!(!c.auto_skip_ed);
}

#[test]
fn use_custom_player_controls_defaults_to_true() {
    assert!(Config::default().use_custom_player_controls);
}

#[test]
fn disable_auto_pip_on_leave_defaults_to_true() {
    assert!(Config::default().disable_auto_pip_on_leave);
}

#[test]
fn primary_account_defaults_to_empty() {
    assert_eq!(Config::default().primary_account, "");
}

#[test]
fn external_player_custom_args_defaults_to_empty_string() {
    let c = Config::default();
    assert!(c.external_player_custom_args.is_empty());
}

#[test]
fn the_remaining_defaults() {
    let c = Config::default();
    assert_eq!(c.locale, "en");
    assert_eq!(c.external_player_kind, ExternalPlayerKind::Mpv);
    assert_eq!(c.syncplay_binary, DEFAULT_SYNCPLAY_BINARY);
    assert_eq!(c.image_cache_cap_mb, 500);
    assert!(c.download_bottom_bar_enabled);
    assert!(c.auto_update_anicli);
    assert!(c.update_include_prereleases);
}
