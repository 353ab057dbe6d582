use ani_gui_core::app_info::{app_info, legacy_target, sweep_report, SweepReport};
use ani_gui_core::{version_with_dev, VERSION};

#[test]
fn app_info_reports_what_the_boot_sweep_removed() {
    let sweep = SweepReport {
        removed: vec!["/home/u/.cache/ani-gui/ani-cli".to_string()],
    };
    let info = app_info("0.1.0", "/h", "http://127.0.0.1:1", &sweep);
    assert_eq!(
        info.removed_legacy_paths,
        vec!["/home/u/.cache/ani-gui/ani-cli".to_string()]
    );
}

#[test]
fn an_empty_sweep_reports_an_empty_list_not_an_absent_one() {
    let info = app_info("0.1.0", "/h", "http://127.0.0.1:1", &SweepReport::default());
    assert!(info.removed_legacy_paths.is_empty());
}

#[test]
fn app_info_projects_state_fields() {
    let version = version_with_dev(VERSION, true);
    let info = app_info(
        &version,
        "/home/u/.local/state/ani-gui/history",
        "http://127.0.0.1:42337",
        &SweepReport::default(),
    );
    assert!(info.version.starts_with(VERSION));
    assert_eq!(info.history_path, "/home/u/.local/state/ani-gui/history");
    assert_eq!(info.proxy_base_url, "http://127.0.0.1:42337");
}

#[test]
fn the_sweep_looks_only_at_the_script_copy() {
    assert_eq!(legacy_target("/home/u/.cache/ani-gui"), "/home/u/.cache/ani-gui/ani-cli");
    let r = sweep_report("/c/ani-cli", true, true);
    assert_eq!(r.removed, vec!["/c/ani-cli".to_string()]);
    assert!(sweep_report("/c/ani-cli", false, true).removed.is_empty());
    assert!(sweep_report("/c/ani-cli", true, false).removed.is_empty());
}
