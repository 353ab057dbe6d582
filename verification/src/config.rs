//! User settings, as `config.toml` holds them. Reading and writing the
//! file is the caller's I/O; this module holds the settings and their
//! defaults.

use vstd::prelude::*;
use crate::external_player::ExternalPlayerKind;
use crate::text::to_owned_string;

verus! {

/// The Syncplay binary used when the user has not chosen one.
pub const DEFAULT_SYNCPLAY_BINARY: &'static str = "syncplay";

/// User settings. Every field has a default, so an older file missing
/// a newer setting still decodes.
#[derive(Debug, Clone, PartialEq, Eq)]
pub struct Config {
    /// Interface locale.
    pub locale: String,
    /// Default audio mode, `"sub"` or `"dub"`.
    pub mode: String,
    /// Default quality.
    pub quality: String,
    /// External player command.
    pub external_player: String,
    /// External player flag syntax.
    pub external_player_kind: ExternalPlayerKind,
    /// Argument template for a custom external player.
    pub external_player_custom_args: String,
    /// Syncplay binary.
    pub syncplay_binary: String,
    /// Image cache size cap, in MiB.
    pub image_cache_cap_mb: u64,
    /// Play the next episode automatically.
    pub auto_play_next: bool,
    /// Show the download bar at the bottom of the window.
    pub download_bottom_bar_enabled: bool,
    /// Skip openings automatically.
    pub auto_skip_op: bool,
    /// Skip endings automatically.
    pub auto_skip_ed: bool,
    /// Use the app's own player controls.
    pub use_custom_player_controls: bool,
    /// Keep picture-in-picture from opening when the window is left.
    pub disable_auto_pip_on_leave: bool,
    /// Update the bundled ani-cli automatically.
    pub auto_update_anicli: bool,
    /// Offer prerelease updates.
    pub update_include_prereleases: bool,
    /// The tracker account the UI treats as primary; empty when none
    /// was chosen.
    pub primary_account: String,
}

/// The defaults, as the fields' views.
pub open spec fn is_default_config(c: Config) -> bool {
    &&& c.locale@ == "en"@
    &&& c.mode@ == "sub"@
    &&& c.quality@ == "best"@
    &&& c.external_player@ == "mpv"@
    &&& c.external_player_kind == ExternalPlayerKind::Mpv
    &&& c.external_player_custom_args@ == Seq::<char>::empty()
    &&& c.syncplay_binary@ == DEFAULT_SYNCPLAY_BINARY@
    &&& c.image_cache_cap_mb == 500
    &&& !c.auto_play_next
    &&& c.download_bottom_bar_enabled
    &&& !c.auto_skip_op
    &&& !c.auto_skip_ed
    &&& c.use_custom_player_controls
    &&& c.disable_auto_pip_on_leave
    &&& c.auto_update_anicli
    &&& c.update_include_prereleases
    &&& c.primary_account@ == Seq::<char>::empty()
}

impl Default for Config {
    /// The settings of a fresh install: ani-cli's own defaults (sub,
    /// best, mpv), auto-play and auto-skip off, custom controls on.
    fn default() -> (c: Self)
        ensures
            is_default_config(c),
    {
        Config {
            locale: to_owned_string("en"),
            mode: to_owned_string("sub"),
            quality: to_owned_string("best"),
            external_player: to_owned_string("mpv"),
            external_player_kind: ExternalPlayerKind::Mpv,
            external_player_custom_args: String::new(),
            syncplay_binary: to_owned_string(DEFAULT_SYNCPLAY_BINARY),
            image_cache_cap_mb: 500,
            auto_play_next: false,
            download_bottom_bar_enabled: true,
            auto_skip_op: false,
            auto_skip_ed: false,
            use_custom_player_controls: true,
            disable_auto_pip_on_leave: true,
            auto_update_anicli: true,
            update_include_prereleases: true,
            primary_account: String::new(),
        }
    }
}

} // verus!
