//! What the renderer's About panel shows, and the report of the boot
//! sweep that removes the script copy older builds left in the cache.

use vstd::prelude::*;
use crate::text::{push_str, to_owned_string};

verus! {

/// The file name older builds kept their ani-cli copy under.
pub const LEGACY_SCRIPT_NAME: &'static str = "ani-cli";

/// What the boot sweep removed.
#[derive(Debug, Clone, PartialEq, Eq)]
pub struct SweepReport {
    /// The paths removed.
    pub removed: Vec<String>,
}

impl Default for SweepReport {
    fn default() -> (r: Self)
        ensures
            r.removed@.len() == 0,
    {
        SweepReport { removed: Vec::new() }
    }
}

/// Where the orphaned script copy would sit in a cache directory.
pub open spec fn legacy_target_spec(cache_dir: Seq<char>) -> Seq<char> {
    cache_dir + "/"@ + LEGACY_SCRIPT_NAME@
}

/// The path the boot sweep looks at: the script's name in the cache
/// directory.
pub fn legacy_target(cache_dir: &str) -> (r: String)
    ensures
        r@ == legacy_target_spec(cache_dir@),
{
    let mut s = to_owned_string(cache_dir);
    push_str(&mut s, "/");
    push_str(&mut s, LEGACY_SCRIPT_NAME);
    s
}

/// The sweep's report: the target when it was a regular file and its
/// removal succeeded, nothing otherwise.
pub fn sweep_report(target: &str, was_file: bool, removed_ok: bool) -> (r: SweepReport)
    ensures
        was_file && removed_ok ==> r.removed@.len() == 1 && r.removed@[0]@ == target@,
        !(was_file && removed_ok) ==> r.removed@.len() == 0,
{
    if was_file && removed_ok {
        let mut v: Vec<String> = Vec::new();
        v.push(to_owned_string(target));
        SweepReport { removed: v }
    } else {
        SweepReport::default()
    }
}

/// What the About panel shows.
#[derive(Debug, Clone, PartialEq, Eq)]
pub struct AppInfo {
    /// The displayed version.
    pub version: String,
    /// Where the watch history lives.
    pub history_path: String,
    /// The local proxy's base URL.
    pub proxy_base_url: String,
    /// The legacy paths the boot sweep removed; empty, never absent,
    /// when it removed none.
    pub removed_legacy_paths: Vec<String>,
}

/// Assemble the About panel's facts.
pub fn app_info(version: &str, history_path: &str, proxy_base_url: &str, sweep: &SweepReport) -> (r:
    AppInfo)
    ensures
        r.version@ == version@,
        r.history_path@ == history_path@,
        r.proxy_base_url@ == proxy_base_url@,
        r.removed_legacy_paths@.map_values(|s: String| s@) == sweep.removed@.map_values(
            |s: String| s@,
        ),
{
    let mut removed: Vec<String> = Vec::new();
    let mut i: usize = 0;
    while i < sweep.removed.len()
        invariant
            i <= sweep.removed@.len(),
            removed@.map_values(|s: String| s@) == sweep.removed@.map_values(|s: String| s@).subrange(
                0,
                i as int,
            ),
        decreases sweep.removed@.len() - i,
    {
        let ghost before = removed@;
        let p = to_owned_string(sweep.removed[i].as_str());
        removed.push(p);
        proof {
            let sv = sweep.removed@.map_values(|s: String| s@);
            assert(sv[i as int] == sweep.removed@[i as int]@);
            assert(removed@.map_values(|s: String| s@) =~= before.map_values(|s: String| s@).push(
                p@,
            ));
            assert(sv.subrange(0, i + 1) =~= sv.subrange(0, i as int).push(sv[i as int]));
        }
        i = i + 1;
    }
    proof {
        assert(sweep.removed@.map_values(|s: String| s@).subrange(0, i as int) =~= sweep.removed@.map_values(
            |s: String| s@,
        ));
    }
    AppInfo {
        version: to_owned_string(version),
        history_path: to_owned_string(history_path),
        proxy_base_url: to_owned_string(proxy_base_url),
        removed_legacy_paths: removed,
    }
}

} // verus!
