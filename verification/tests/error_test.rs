use ani_gui_core::error::AniError;

#[test]
fn rate_limits_block_and_verdicts_do_not() {
    assert!(AniError::RateLimited {
        retry_after_secs: None
    }
    .is_provider_block());
    assert!(!AniError::NoResults.is_provider_block());
    assert!(!AniError::Network.is_provider_block());
}

#[test]
fn rate_limited_maps_to_429_and_a_dedicated_key() {
    let e = AniError::RateLimited {
        retry_after_secs: Some(9),
    };
    assert_eq!(e.http_status_code(), 429);
    assert_eq!(e.key(), "error.network.rate_limited");
}

#[test]
fn every_variant_has_a_stable_key() {
    let cases = [
        AniError::Scraper {
            key: "error.scraper.custom_test_key",
        },
        AniError::Timeout,
        AniError::NoResults,
        AniError::ParseFailed { detail: "x".into() },
        AniError::FfmpegMissing,
        AniError::PlayerSpawnFailed {
            binary: "vlc".into(),
        },
        AniError::SyncplaySpawnFailed {
            binary: "syncplay".into(),
        },
        AniError::Upstream { status: 503 },
        AniError::Network,
        AniError::GateRefused,
        AniError::Cache,
        AniError::Io,
        AniError::Config,
        AniError::Metadata,
        AniError::InvalidToken,
    ];
    for c in cases {
        let k = c.key();
        assert!(
            k.starts_with("error."),
            "every error key starts with 'error.': got {k:?} for {c:?}"
        );
        assert!(!k.is_empty());
    }
}

#[test]
fn display_messages_match_thiserror_attributes() {
    assert_eq!(AniError::Timeout.message(), "scraper timed out");
    assert_eq!(AniError::NoResults.message(), "no results");
    assert_eq!(AniError::Network.message(), "network error");
    assert_eq!(AniError::Upstream { status: 503 }.message(), "upstream 503");
    assert_eq!(
        AniError::ParseFailed {
            detail: "stdout shape".into()
        }
        .message(),
        "parse failed: stdout shape"
    );
}

#[test]
fn io_error_maps_to_io_variant() {
    let io_err = std::io::Error::new(std::io::ErrorKind::NotFound, "x");
    let mapped: AniError = io_err.into();
    assert!(matches!(mapped, AniError::Io));
    assert_eq!(mapped.key(), "error.io.generic");
}

#[test]
fn toml_error_maps_to_config_variant() {
    let toml_err: toml::de::Error =
        toml::from_str::<toml::Value>("not = valid = toml").unwrap_err();
    let mapped: AniError = toml_err.into();
    assert!(matches!(mapped, AniError::Config));
    assert_eq!(mapped.key(), "error.config.parse");
}

#[test]
fn upstream_429_surfaces_as_too_many_requests() {
    assert_eq!(AniError::Upstream { status: 429 }.http_status_code(), 429);
    assert_eq!(AniError::Upstream { status: 500 }.http_status_code(), 502);
    assert_eq!(AniError::Upstream { status: 503 }.http_status_code(), 502);
}

#[test]
fn every_variant_has_its_http_status() {
    assert_eq!(AniError::NoResults.http_status_code(), 404);
    assert_eq!(AniError::InvalidToken.http_status_code(), 401);
    assert_eq!(AniError::Network.http_status_code(), 503);
    assert_eq!(AniError::GateRefused.http_status_code(), 503);
    assert_eq!(AniError::Timeout.http_status_code(), 504);
    assert_eq!(AniError::UnsupportedPkce.http_status_code(), 400);
    assert_eq!(AniError::Io.http_status_code(), 500);
}

#[test]
fn refusal_shaped_statuses_are_blocks() {
    assert!(AniError::Upstream { status: 403 }.is_provider_block());
    assert!(AniError::Upstream { status: 429 }.is_provider_block());
    assert!(AniError::Upstream { status: 502 }.is_provider_block());
    assert!(!AniError::Upstream { status: 404 }.is_provider_block());
}

#[test]
fn a_duplicate_is_the_same_error() {
    let e = AniError::PlayerSpawnFailed {
        binary: "mpv".into(),
    };
    assert_eq!(e.duplicate(), e);
}
