//! The decision core of the ani-gui backend: episode numbering between
//! the provider and Kitsu, the show picker, the resolution walk, tracker
//! write-back reconciliation, player command lines, and the small text
//! formats the backend reads and writes.

#![allow(unused_imports)]

pub mod account;
pub mod airing;
pub mod anidb_offset;
pub mod app_info;
pub mod availability;
pub mod config;
pub mod cour;
pub mod download;
pub mod error;
pub mod external_player;
pub mod history;
pub mod i18n;
pub mod numbering;
pub mod offset_store;
pub mod picker;
pub mod play;
pub mod progress;
pub mod resume;
pub mod syncplay;
pub mod text;
pub mod thumbs;
pub mod walk;

use vstd::prelude::*;
use crate::text::{push_str, to_owned_string};

verus! {

/// The crate's version.
pub const VERSION: &'static str = "0.1.0";

/// A version as displayed: a development build carries `-dev`.
pub open spec fn version_with_dev_spec(version: Seq<char>, is_dev: bool) -> Seq<char> {
    if is_dev {
        version + "-dev"@
    } else {
        version
    }
}

/// The displayed version: `version`, with `-dev` appended for a
/// development build.
pub fn version_with_dev(version: &str, is_dev: bool) -> (r: String)
    ensures
        r@ == version_with_dev_spec(version@, is_dev),
{
    let mut s = to_owned_string(version);
    if is_dev {
        push_str(&mut s, "-dev");
    }
    s
}

} // verus!
