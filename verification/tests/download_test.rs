use ani_gui_core::download::{
    after_ytdlp, at_target, before_transfer, collision, episode_range, ffmpeg_argv, file_stem,
    lock_path_for, publish_gate, resolve_dest, scratch_name, scratch_name_with, scratch_outcome,
    target_lock_path, tool_exit,
    yt_dlp_could_not_repackage, ytdlp_argv, ytdlp_sort_args, AfterYtdlp, AtTarget, BeforeTransfer,
    Collision, DownloadArgs, PathFacts, PublishGate, ScratchOutcome, ALREADY_HERE,
};
use ani_gui_core::error::AniError;

fn args_with_dir(dir: Option<&str>) -> DownloadArgs {
    DownloadArgs {
        title: "x".into(),
        episode: "1".into(),
        mode: "sub".into(),
        quality: None,
        episode_count: None,
        year: None,
        subtype: None,
        alt_titles: vec![],
        kitsu_id: None,
        download_dir: dir.map(str::to_string),
    }
}

#[test]
fn resolve_dest_prefers_explicit_args_over_paths_helper() {
    let a = args_with_dir(Some("/tmp/explicit"));
    let p = resolve_dest(&a, None).expect("ok");
    assert_eq!(p, "/tmp/explicit");
}

#[test]
fn an_empty_destination_falls_back_to_the_default_or_fails() {
    let a = args_with_dir(Some(""));
    assert_eq!(resolve_dest(&a, Some("/home/u/Downloads".into())), Ok("/home/u/Downloads".into()));
    assert_eq!(resolve_dest(&args_with_dir(None), None), Err(AniError::Config));
}

#[test]
fn the_cross_instance_lock_lives_beside_the_file_it_guards() {
    let dest = "/tmp/ani-gui-lock-probe";
    let target = format!("{dest}/Show Episode 1.mp4");
    let path = target_lock_path(&target).expect("a lock path for the target");
    assert!(
        path.starts_with(&format!("{dest}/")),
        "the lock must sit under the target's own directory: {path}"
    );
}

#[test]
fn case_equivalent_targets_share_one_lock() {
    let dest = "/tmp/ani-gui-prop";
    assert_eq!(
        target_lock_path(&format!("{dest}/Show Episode 1.mp4")),
        target_lock_path(&format!("{dest}/show episode 1.MP4")),
        "on a case-insensitive filesystem these are one file and must be one lock"
    );
}

#[test]
fn sigma_variants_that_are_one_file_take_one_lock() {
    let dest = "/tmp/ani-gui-prop";
    assert_eq!(
        target_lock_path(&format!("{dest}/Show σ Episode 1.mp4")),
        target_lock_path(&format!("{dest}/Show ς Episode 1.mp4")),
        "NTFS uppercases both to Σ, so these are one file and must be one lock"
    );
}

#[test]
fn the_lock_path_is_the_folded_name_in_a_hidden_sibling_directory() {
    assert_eq!(
        target_lock_path("/tmp/d/Show Episode 1.mp4"),
        Some("/tmp/d/.ani-gui-locks/show episode 1.mp4".to_string())
    );
    assert_eq!(target_lock_path("a.mp4"), Some(".ani-gui-locks/a.mp4".to_string()));
    assert_eq!(target_lock_path("/tmp/d/"), None);
    assert_eq!(target_lock_path("/tmp/.."), None);
}

#[test]
fn episode_range_accepts_ordered_integer_pairs_only() {
    assert_eq!(episode_range("1-12"), Some((1, 12)));
    assert_eq!(episode_range("3-3"), Some((3, 3)));
    assert_eq!(episode_range("5"), None);
    assert_eq!(episode_range("6.5"), None);
    assert_eq!(episode_range("12-1"), None);
    assert_eq!(episode_range("1.5-3"), None);
    assert_eq!(episode_range(""), None);
    assert_eq!(episode_range("-"), None);
}

#[test]
fn every_ordered_pair_parses_and_nothing_else_does_on_samples() {
    for (a, b) in [(0u32, 0u32), (1, 2), (2, 1), (u32::MAX, u32::MAX), (0, u32::MAX)] {
        let joined = format!("{a}-{b}");
        let expected = if a <= b { Some((a, b)) } else { None };
        assert_eq!(episode_range(&joined), expected);
        assert_eq!(episode_range(&a.to_string()), None);
    }
}

#[test]
fn the_file_stem_names_the_title_and_episode() {
    assert_eq!(file_stem("The Show", "3"), "The Show Episode 3");
}

#[test]
fn a_scratch_name_is_hidden_unique_and_mp4() {
    let a = scratch_name(42);
    let b = scratch_name(42);
    assert!(a.starts_with(".ani-gui-42-"));
    assert!(a.ends_with(".part.mp4"));
    assert_eq!(a.len(), ".ani-gui-42-".len() + 32 + ".part.mp4".len());
    assert_ne!(a, b);
}

#[test]
fn what_sits_at_a_path_is_classified_without_guessing() {
    assert_eq!(at_target(PathFacts::Missing), AtTarget::Nothing);
    assert_eq!(at_target(PathFacts::Unreadable), AtTarget::Unreadable);
    let file = |len, age| PathFacts::Present {
        is_file: true,
        len,
        age_secs: age,
    };
    assert_eq!(at_target(file(10, Some(5))), AtTarget::Episode);
    assert_eq!(at_target(file(0, Some(5))), AtTarget::LiveClaim);
    assert_eq!(at_target(file(0, Some(60))), AtTarget::AbandonedClaim);
    assert_eq!(at_target(file(0, None)), AtTarget::LiveClaim);
    assert_eq!(
        at_target(PathFacts::Present {
            is_file: false,
            len: 4096,
            age_secs: Some(1000),
        }),
        AtTarget::Obstruction
    );
}

#[test]
fn the_target_decides_before_a_transfer_is_spent() {
    assert_eq!(before_transfer(AtTarget::Nothing, "/d/x.mp4"), BeforeTransfer::Proceed);
    assert_eq!(before_transfer(AtTarget::Episode, "/d/x.mp4"), BeforeTransfer::AlreadyHere);
    assert_eq!(
        before_transfer(AtTarget::AbandonedClaim, "/d/x.mp4"),
        BeforeTransfer::Refuse(Some("status.download.abandoned_claim /d/x.mp4".into()))
    );
    assert_eq!(
        before_transfer(AtTarget::LiveClaim, "/d/x.mp4"),
        BeforeTransfer::Refuse(Some("status.download.claim_pending /d/x.mp4".into()))
    );
    assert_eq!(before_transfer(AtTarget::Obstruction, "/d/x.mp4"), BeforeTransfer::Refuse(None));
    assert_eq!(ALREADY_HERE, "status.download.already_here");
}

#[test]
fn publication_never_takes_a_claim() {
    assert_eq!(publish_gate(AtTarget::Nothing), PublishGate::Link);
    assert_eq!(publish_gate(AtTarget::Episode), PublishGate::Link);
    assert_eq!(publish_gate(AtTarget::LiveClaim), PublishGate::Refuse { drop_scratch: true });
    assert_eq!(
        publish_gate(AtTarget::AbandonedClaim),
        PublishGate::Refuse { drop_scratch: true }
    );
    assert_eq!(publish_gate(AtTarget::Unreadable), PublishGate::Refuse { drop_scratch: false });
}

#[test]
fn a_collision_reclaims_a_freed_name_once() {
    assert_eq!(collision(AtTarget::Episode, false), Collision::AlreadyThere);
    assert_eq!(collision(AtTarget::Nothing, false), Collision::ClaimAgain);
    assert_eq!(collision(AtTarget::Nothing, true), Collision::Fail);
    assert_eq!(collision(AtTarget::LiveClaim, false), Collision::Fail);
}

#[test]
fn a_finished_run_publishes_only_bytes() {
    assert_eq!(scratch_outcome(AtTarget::Episode), ScratchOutcome::Publish);
    assert_eq!(scratch_outcome(AtTarget::Nothing), ScratchOutcome::NothingWritten);
    assert_eq!(scratch_outcome(AtTarget::LiveClaim), ScratchOutcome::NothingWritten);
    assert_eq!(scratch_outcome(AtTarget::Unreadable), ScratchOutcome::Fail);
}

#[test]
fn quality_maps_onto_ytdlps_resolution_sort() {
    assert_eq!(ytdlp_sort_args(Some("worst")), vec!["-S", "+res"]);
    assert_eq!(ytdlp_sort_args(Some("720")), vec!["-S", "res:720"]);
    assert!(ytdlp_sort_args(Some("best")).is_empty());
    assert!(ytdlp_sort_args(Some("")).is_empty());
    assert!(ytdlp_sort_args(Some("72o")).is_empty());
    assert!(ytdlp_sort_args(None).is_empty());
}

#[test]
fn the_tool_command_lines_carry_v5s_arguments() {
    assert_eq!(
        ytdlp_argv("https://m/x.m3u8", "/d/s.mp4", Some("1080")),
        vec![
            "https://m/x.m3u8",
            "--no-skip-unavailable-fragments",
            "--fragment-retries",
            "infinite",
            "-N",
            "16",
            "-o",
            "/d/s.mp4",
            "-S",
            "res:1080",
        ]
    );
    assert_eq!(
        ffmpeg_argv("https://m/x.m3u8", "/d/s.mp4"),
        vec![
            "-y",
            "-extension_picky",
            "0",
            "-loglevel",
            "error",
            "-stats",
            "-i",
            "https://m/x.m3u8",
            "-c",
            "copy",
            "/d/s.mp4",
        ]
    );
}

#[test]
fn a_failed_ytdlp_run_falls_back_to_ffmpeg_when_there_is_one() {
    assert_eq!(
        after_ytdlp(true, true, AniError::FfmpegMissing),
        AfterYtdlp::RetryFfmpeg("status.download.repackage_retry".into())
    );
    assert_eq!(
        after_ytdlp(false, true, AniError::Timeout),
        AfterYtdlp::RetryFfmpeg("status.download.retry_ffmpeg".into())
    );
    assert_eq!(
        after_ytdlp(true, false, AniError::Timeout),
        AfterYtdlp::Fail(AniError::FfmpegMissing)
    );
    assert_eq!(
        after_ytdlp(false, false, AniError::Timeout),
        AfterYtdlp::Fail(AniError::Timeout)
    );
}

#[test]
fn a_nonzero_exit_is_a_parse_failure() {
    assert_eq!(tool_exit(true), Ok(()));
    assert_eq!(
        tool_exit(false),
        Err(AniError::Scraper {
            key: "error.scraper.parse_failed"
        })
    );
}

#[test]
fn the_repackage_warning_is_read_off_its_own_line() {
    let warning = "[download] 100%\n  WARNING: out: Possible MPEG-TS in MP4 container or malformed AAC timestamps. Install ffmpeg to fix this automatically\n";
    assert!(yt_dlp_could_not_repackage(warning));
    assert!(yt_dlp_could_not_repackage(
        "WARNING: Possible MPEG-TS in MP4 container"
    ));
    let title_echo = "[download] Destination: Possible MPEG-TS in MP4 container Episode 1.mp4\n";
    assert!(!yt_dlp_could_not_repackage(title_echo));
    assert!(!yt_dlp_could_not_repackage("WARNING: something else\n"));
    assert!(!yt_dlp_could_not_repackage(""));
}

#[test]
fn a_scratch_name_carries_the_pid_and_the_token() {
    assert_eq!(
        scratch_name_with(42, "0123456789abcdef0123456789abcdef"),
        ".ani-gui-42-0123456789abcdef0123456789abcdef.part.mp4"
    );
}

#[test]
fn a_lock_path_is_built_from_the_folded_name() {
    assert_eq!(
        lock_path_for("/tmp/d/Show.MP4", "show.mp4"),
        Some("/tmp/d/.ani-gui-locks/show.mp4".to_string())
    );
    assert_eq!(lock_path_for("x.mp4", "x.mp4"), Some(".ani-gui-locks/x.mp4".to_string()));
    assert_eq!(lock_path_for("/tmp/d/", "anything"), None);
    assert_eq!(lock_path_for("/tmp/d/.", "."), None);
}

#[test]
fn the_lock_is_not_the_target_and_distinct_names_take_distinct_locks() {
    let target = "/tmp/d/Show Episode 1.mp4";
    assert_ne!(target_lock_path(target), Some(target.to_string()));
    assert_ne!(
        target_lock_path("/tmp/d/Show Episode 1.mp4"),
        target_lock_path("/tmp/d/Show Episode 2.mp4")
    );
}
