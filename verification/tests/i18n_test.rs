use ani_gui_core::i18n::keys::{
    CACHE_GENERIC, CONFIG_PARSE, DOWNLOAD_FFMPEG_MISSING, IO_GENERIC, METADATA_SOURCE,
    NETWORK_UNREACHABLE, NETWORK_UPSTREAM, SCRAPER_PARSE_FAILED, SCRAPER_TIMEOUT,
    SEARCH_NO_RESULTS, STREAM_INVALID_TOKEN,
};

#[test]
fn every_key_is_well_formed() {
    let all = [
        CACHE_GENERIC,
        CONFIG_PARSE,
        DOWNLOAD_FFMPEG_MISSING,
        IO_GENERIC,
        METADATA_SOURCE,
        NETWORK_UNREACHABLE,
        NETWORK_UPSTREAM,
        SCRAPER_PARSE_FAILED,
        SCRAPER_TIMEOUT,
        SEARCH_NO_RESULTS,
        STREAM_INVALID_TOKEN,
    ];
    for k in all {
        assert!(k.starts_with("error."), "i18n key '{k}' must start with 'error.'");
        let parts: Vec<_> = k.split('.').collect();
        assert!(parts.len() >= 3, "i18n key '{k}' should have at least 3 segments");
        assert!(parts.iter().all(|p| !p.is_empty()), "no empty segments in '{k}'");
    }
}
