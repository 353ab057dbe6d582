//! `AniError` — the single error type that crosses every command
//! boundary. Every variant maps to a stable i18n key returned to the
//! frontend; localized strings are resolved by the frontend, never by
//! the backend.

use vstd::prelude::*;
use crate::i18n::keys;
use crate::text::{decimal, push_decimal, push_str, to_owned_string};

verus! {

/// Any failure that may occur in the backend.
#[derive(Debug, Clone, PartialEq, Eq)]
pub enum AniError {
    /// Provider resolution reported an internal failure; carries its
    /// i18n key under `error.scraper.*`.
    Scraper { key: &'static str },
    /// Resolution didn't finish within its timeout.
    Timeout,
    /// Search returned zero results.
    NoResults,
    /// The provider answered with an in-band rate limit; the seconds it
    /// asked us to wait, when the message carried a number.
    RateLimited { retry_after_secs: Option<u64> },
    /// A provider response did not match the expected shape; the detail
    /// is for logs only.
    ParseFailed { detail: String },
    /// Neither download tool is installed.
    FfmpegMissing,
    /// An upstream HTTP request returned a non-success status.
    Upstream { status: u16 },
    /// A network-layer failure (connection refused, DNS, TLS).
    Network,
    /// The scraper's admission control refused the request (breaker
    /// open, background priority): its own answer, not the provider's.
    GateRefused,
    /// The external-player binary couldn't be spawned.
    PlayerSpawnFailed { binary: String },
    /// The Syncplay binary couldn't be spawned.
    SyncplaySpawnFailed { binary: String },
    /// Cache (SQLite) operation failed.
    Cache,
    /// Filesystem I/O failure.
    Io,
    /// Configuration file parse or write failure.
    Config,
    /// Metadata source returned malformed data, or a request named an
    /// unsupported provider or status.
    Metadata,
    /// The request supplied a PKCE configuration the provider rejects.
    UnsupportedPkce,
    /// Stream session token was missing, expired, or signature-invalid.
    InvalidToken,
}

/// The i18n key of an error.
pub open spec fn key_spec(e: AniError) -> Seq<char> {
    match e {
        AniError::Scraper { key } => key@,
        AniError::Timeout => "error.scraper.timeout"@,
        AniError::NoResults => "error.search.no_results"@,
        AniError::ParseFailed { .. } => "error.scraper.parse_failed"@,
        AniError::FfmpegMissing => "error.download.ffmpeg_missing"@,
        AniError::PlayerSpawnFailed { .. } => "error.player.spawn_failed"@,
        AniError::SyncplaySpawnFailed { .. } => "error.syncplay.spawn_failed"@,
        AniError::Upstream { .. } => "error.network.upstream"@,
        AniError::RateLimited { .. } => "error.network.rate_limited"@,
        AniError::Network => "error.network.unreachable"@,
        AniError::GateRefused => "error.network.unreachable"@,
        AniError::Cache => "error.cache.generic"@,
        AniError::Io => "error.io.generic"@,
        AniError::Config => "error.config.parse"@,
        AniError::Metadata => "error.metadata.source"@,
        AniError::UnsupportedPkce => "error.account.unsupported_pkce"@,
        AniError::InvalidToken => "error.stream.invalid_token"@,
    }
}

/// The provider blocking this client rather than answering about one
/// resource: a rate limit, or a refusal-shaped status (403, 429, 5xx).
pub open spec fn is_provider_block_spec(e: AniError) -> bool {
    match e {
        AniError::RateLimited { .. } => true,
        AniError::Upstream { status } => status == 403 || status == 429 || status >= 500,
        _ => false,
    }
}

/// The HTTP status the route layer surfaces for an error.
pub open spec fn http_status_spec(e: AniError) -> u16 {
    match e {
        AniError::NoResults => 404,
        AniError::InvalidToken => 401,
        AniError::Upstream { status } => if status == 429 {
            429
        } else {
            502
        },
        AniError::RateLimited { .. } => 429,
        AniError::Network => 503,
        AniError::GateRefused => 503,
        AniError::Timeout => 504,
        AniError::UnsupportedPkce => 400,
        _ => 500,
    }
}

/// The log line of an error.
pub open spec fn message_spec(e: AniError) -> Seq<char> {
    match e {
        AniError::Scraper { .. } => "scraper error"@,
        AniError::Timeout => "scraper timed out"@,
        AniError::NoResults => "no results"@,
        AniError::RateLimited { .. } => "rate limited by upstream"@,
        AniError::ParseFailed { detail } => "parse failed: "@ + detail@,
        AniError::FfmpegMissing => "ffmpeg required for downloads"@,
        AniError::Upstream { status } => "upstream "@ + decimal(status as nat),
        AniError::Network => "network error"@,
        AniError::GateRefused => "scraper gate refused"@,
        AniError::PlayerSpawnFailed { binary } => "player spawn failed: "@ + binary@,
        AniError::SyncplaySpawnFailed { binary } => "syncplay spawn failed: "@ + binary@,
        AniError::Cache => "cache error"@,
        AniError::Io => "io error"@,
        AniError::Config => "config error"@,
        AniError::Metadata => "metadata source"@,
        AniError::UnsupportedPkce => "unsupported pkce method for this provider"@,
        AniError::InvalidToken => "invalid stream token"@,
    }
}

impl AniError {
    /// An owned copy of this error, variant and fields alike.
    pub fn duplicate(&self) -> (r: AniError)
        ensures
            r == *self,
    {
        match self {
            AniError::Scraper { key } => AniError::Scraper { key: *key },
            AniError::Timeout => AniError::Timeout,
            AniError::NoResults => AniError::NoResults,
            AniError::RateLimited { retry_after_secs } => AniError::RateLimited {
                retry_after_secs: *retry_after_secs,
            },
            AniError::ParseFailed { detail } => AniError::ParseFailed { detail: detail.clone() },
            AniError::FfmpegMissing => AniError::FfmpegMissing,
            AniError::Upstream { status } => AniError::Upstream { status: *status },
            AniError::Network => AniError::Network,
            AniError::GateRefused => AniError::GateRefused,
            AniError::PlayerSpawnFailed { binary } => AniError::PlayerSpawnFailed {
                binary: binary.clone(),
            },
            AniError::SyncplaySpawnFailed { binary } => AniError::SyncplaySpawnFailed {
                binary: binary.clone(),
            },
            AniError::Cache => AniError::Cache,
            AniError::Io => AniError::Io,
            AniError::Config => AniError::Config,
            AniError::Metadata => AniError::Metadata,
            AniError::UnsupportedPkce => AniError::UnsupportedPkce,
            AniError::InvalidToken => AniError::InvalidToken,
        }
    }

    /// Stable i18n key used by the frontend to look up a localized
    /// message.
    pub fn key(&self) -> (k: &'static str)
        ensures
            k@ == key_spec(*self),
    {
        proof {
            reveal_strlit("error.scraper.timeout");
        }
        match self {
            AniError::Scraper { key } => key,
            AniError::Timeout => keys::SCRAPER_TIMEOUT,
            AniError::NoResults => keys::SEARCH_NO_RESULTS,
            AniError::ParseFailed { .. } => keys::SCRAPER_PARSE_FAILED,
            AniError::FfmpegMissing => keys::DOWNLOAD_FFMPEG_MISSING,
            AniError::PlayerSpawnFailed { .. } => "error.player.spawn_failed",
            AniError::SyncplaySpawnFailed { .. } => "error.syncplay.spawn_failed",
            AniError::Upstream { .. } => keys::NETWORK_UPSTREAM,
            AniError::RateLimited { .. } => "error.network.rate_limited",
            // The user-facing story is the same transient couldn't-reach;
            // the refusal variant exists for outcome recording, not copy.
            AniError::Network => keys::NETWORK_UNREACHABLE,
            AniError::GateRefused => keys::NETWORK_UNREACHABLE,
            AniError::Cache => keys::CACHE_GENERIC,
            AniError::Io => keys::IO_GENERIC,
            AniError::Config => keys::CONFIG_PARSE,
            AniError::Metadata => keys::METADATA_SOURCE,
            AniError::UnsupportedPkce => "error.account.unsupported_pkce",
            AniError::InvalidToken => keys::STREAM_INVALID_TOKEN,
        }
    }

    /// Whether this error is the provider blocking this client: probe
    /// loops stop on these, while not-found-shaped statuses and
    /// transport failures speak only about the single request.
    pub fn is_provider_block(&self) -> (b: bool)
        ensures
            b == is_provider_block_spec(*self),
    {
        match self {
            AniError::RateLimited { .. } => true,
            AniError::Upstream { status } => *status == 403 || *status == 429 || *status >= 500,
            _ => false,
        }
    }

    /// HTTP status code the route layer surfaces for this variant.
    pub fn http_status_code(&self) -> (c: u16)
        ensures
            c == http_status_spec(*self),
    {
        match self {
            AniError::NoResults => 404,
            AniError::InvalidToken => 401,
            // A rate limit passes through verbatim so the frontend can
            // tell it apart from a generic bad gateway.
            AniError::Upstream { status } => if *status == 429 {
                429
            } else {
                502
            },
            AniError::RateLimited { .. } => 429,
            AniError::Network => 503,
            AniError::GateRefused => 503,
            AniError::Timeout => 504,
            AniError::UnsupportedPkce => 400,
            AniError::ParseFailed { .. }
            | AniError::FfmpegMissing
            | AniError::PlayerSpawnFailed { .. }
            | AniError::SyncplaySpawnFailed { .. }
            | AniError::Cache
            | AniError::Io
            | AniError::Config
            | AniError::Metadata
            | AniError::Scraper { .. } => 500,
        }
    }

    /// The error's log line (its display form).
    pub fn message(&self) -> (m: String)
        ensures
            m@ == message_spec(*self),
    {
        match self {
            AniError::Scraper { .. } => to_owned_string("scraper error"),
            AniError::Timeout => to_owned_string("scraper timed out"),
            AniError::NoResults => to_owned_string("no results"),
            AniError::RateLimited { .. } => to_owned_string("rate limited by upstream"),
            AniError::ParseFailed { detail } => {
                let mut m = to_owned_string("parse failed: ");
                push_str(&mut m, detail.as_str());
                m
            },
            AniError::FfmpegMissing => to_owned_string("ffmpeg required for downloads"),
            AniError::Upstream { status } => {
                let mut m = to_owned_string("upstream ");
                push_decimal(&mut m, *status as u32);
                m
            },
            AniError::Network => to_owned_string("network error"),
            AniError::GateRefused => to_owned_string("scraper gate refused"),
            AniError::PlayerSpawnFailed { binary } => {
                let mut m = to_owned_string("player spawn failed: ");
                push_str(&mut m, binary.as_str());
                m
            },
            AniError::SyncplaySpawnFailed { binary } => {
                let mut m = to_owned_string("syncplay spawn failed: ");
                push_str(&mut m, binary.as_str());
                m
            },
            AniError::Cache => to_owned_string("cache error"),
            AniError::Io => to_owned_string("io error"),
            AniError::Config => to_owned_string("config error"),
            AniError::Metadata => to_owned_string("metadata source"),
            AniError::UnsupportedPkce => to_owned_string(
                "unsupported pkce method for this provider",
            ),
            AniError::InvalidToken => to_owned_string("invalid stream token"),
        }
    }
}

/// Every upstream 429 is surfaced as 429, every other upstream status
/// as 502; the block predicate is exactly the refusal-shaped statuses.
pub proof fn law_upstream_status_mapping(status: u16)
    ensures
        http_status_spec(AniError::Upstream { status }) == (if status == 429 {
            429u16
        } else {
            502u16
        }),
        is_provider_block_spec(AniError::Upstream { status }) == (status == 403 || status == 429
            || status >= 500),
{
}

/// `std::io::Error`, carried through opaquely.
#[verifier::external_type_specification]
#[verifier::external_body]
pub struct ExIoError(std::io::Error);

/// `toml::de::Error`, carried through opaquely.
#[verifier::external_type_specification]
#[verifier::external_body]
pub struct ExTomlDeError(toml::de::Error);

impl From<std::io::Error> for AniError {
    /// Every filesystem failure is `Io`.
    fn from(_e: std::io::Error) -> (r: Self) {
        AniError::Io
    }
}

impl vstd::std_specs::convert::FromSpecImpl<std::io::Error> for AniError {
    open spec fn obeys_from_spec() -> bool {
        true
    }

    open spec fn from_spec(v: std::io::Error) -> Self {
        AniError::Io
    }
}

impl From<toml::de::Error> for AniError {
    /// A configuration file that does not parse is `Config`.
    fn from(_e: toml::de::Error) -> (r: Self) {
        AniError::Config
    }
}

impl vstd::std_specs::convert::FromSpecImpl<toml::de::Error> for AniError {
    open spec fn obeys_from_spec() -> bool {
        true
    }

    open spec fn from_spec(v: toml::de::Error) -> Self {
        AniError::Config
    }
}

} // verus!
