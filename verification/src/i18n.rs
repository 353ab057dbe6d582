//! Stable i18n key constants returned by the backend.
//!
//! The backend never returns localized strings, only these keys; the
//! frontend resolves them in the user's locale. Keys are organized by
//! surface: `error.scraper.*`, `error.search.*`, `error.network.*`,
//! `error.cache.*`, `error.config.*`, `error.metadata.*`, `error.io.*`,
//! `error.stream.*`, `error.download.*`.

pub mod keys;
