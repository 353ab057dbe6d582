use ani_gui_core::progress::{progress_text, ProgressLine};

#[test]
fn resolve_steps_read_as_the_dock_shows_them() {
    assert_eq!(
        progress_text(&ProgressLine::Searching {
            provider: "anidb.app".into()
        }),
        "Searching anidb.app..."
    );
    assert_eq!(
        progress_text(&ProgressLine::Matched {
            title: "The Show".into()
        }),
        "Matched The Show"
    );
    assert_eq!(
        progress_text(&ProgressLine::LinksFetched {
            provider: "anidb.app".into()
        }),
        "anidb.app links fetched"
    );
}
