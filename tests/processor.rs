use wcd::config::{ChangeMode, ValidatedPlaylist, ValidatedServerConfig, WatchMode};
use wcd::files::ScanEntry;
use wcd::processor::{Processor, ProcessorError};
use wcd::scheduler::{JobKind, Scheduler};

fn playlist(mode: ChangeMode, every: i64, on_select: bool, use_last: bool) -> ValidatedPlaylist {
    ValidatedPlaylist {
        files: vec!["/one/x.jpg".to_string()],
        directories: vec!["/pics".to_string()],
        command: "feh".to_string(),
        command_args: vec!["--bg-fill".to_string(), "{}".to_string()],
        mode,
        change_every: every,
        trigger_on_select: on_select,
        use_last_on_select: use_last,
    }
}

fn entries(paths: &[&str]) -> Vec<ScanEntry> {
    paths.iter().map(|p| ScanEntry { path: p.to_string(), is_file: true }).collect()
}

fn setup(second: ValidatedPlaylist) -> (Processor, Scheduler) {
    let config = ValidatedServerConfig {
        default_playlist: "main".to_string(),
        watch: WatchMode::Poll(30),
        playlists: vec![
            ("main".to_string(), playlist(ChangeMode::Sequential, 600, true, true)),
            ("evening".to_string(), second),
        ],
        stats_db: None,
    };
    let listings = vec![
        entries(&["/main/a.jpg", "/main/b.jpg"]),
        entries(&["/evening/c.jpg", "/evening/d.jpg", "/evening/e.jpg"]),
    ];
    let p = Processor::new(config, &listings);
    let mut s = Scheduler::new();
    s.prepare(JobKind::Trigger);
    p.start(&mut s);
    (p, s)
}

fn all_accessible(_: &String) -> bool {
    true
}

#[test]
fn status_fails_before_first_change() {
    let (p, s) = setup(playlist(ChangeMode::Sequential, 60, true, true));
    assert_eq!(p.get_status(&s).err(), Some(ProcessorError::MissingTimestamp));
}

#[test]
fn status_after_trigger() {
    let (mut p, mut s) = setup(playlist(ChangeMode::Sequential, 60, true, true));
    let out = p.trigger(&mut s, true, 1_000, &all_accessible).unwrap();
    assert_eq!(out.displayed, Some("/main/a.jpg".to_string()));
    let status = p.get_status(&s).unwrap();
    assert_eq!(status.current_playlist, "main");
    assert_eq!(status.last_update, 1_000);
    assert_eq!(status.playlists.len(), 2);
    let (name, main) = &status.playlists[0];
    assert_eq!(name, "main");
    assert_eq!(main.next_update, 1_600);
    assert_eq!(main.total_files, 2);
    assert_eq!(main.current_image, Some("/main/a.jpg".to_string()));
    assert_eq!(main.directories, vec!["/pics".to_string()]);
    assert_eq!(main.files, vec!["/one/x.jpg".to_string()]);
    let (name, second) = &status.playlists[1];
    assert_eq!(name, "evening");
    assert_eq!(second.next_update, 1_060);
    assert_eq!(second.current_image, None);
    assert_eq!(second.total_files, 3);
}

#[test]
fn trigger_returns_command_and_skip() {
    let (mut p, mut s) = setup(playlist(ChangeMode::Sequential, 60, true, true));
    let first = p.trigger(&mut s, false, 100, &all_accessible).unwrap();
    let cmd = first.command.unwrap();
    assert_eq!(cmd.program, "feh");
    assert_eq!(cmd.args, vec!["--bg-fill".to_string(), "/main/a.jpg".to_string()]);
    assert_eq!(first.skipped, None);
    let second = p.trigger(&mut s, false, 105, &all_accessible).unwrap();
    assert_eq!(second.displayed, Some("/main/b.jpg".to_string()));
    assert_eq!(second.skipped, Some("/main/a.jpg".to_string()));
    let third = p.trigger(&mut s, false, 200, &all_accessible).unwrap();
    assert_eq!(third.displayed, Some("/main/a.jpg".to_string()));
    assert_eq!(third.skipped, None);
    assert_eq!(s.get_last_execution_timestamp(JobKind::Trigger), None);
}

#[test]
fn trigger_skips_vanished_files() {
    let (mut p, mut s) = setup(playlist(ChangeMode::Sequential, 60, true, true));
    let only_b = |path: &String| path.as_str() == "/main/b.jpg";
    let out = p.trigger(&mut s, true, 10, &only_b).unwrap();
    assert_eq!(out.displayed, Some("/main/b.jpg".to_string()));
    let out = p.trigger(&mut s, true, 20, &only_b).unwrap();
    assert_eq!(out.displayed, Some("/main/b.jpg".to_string()));
    let status = p.get_status(&s).unwrap();
    assert_eq!(status.playlists[0].1.total_files, 1);
}

#[test]
fn trigger_on_exhausted_playlist_has_nothing_to_do() {
    let (mut p, mut s) = setup(playlist(ChangeMode::Sequential, 60, true, true));
    let none = |_: &String| false;
    let out = p.trigger(&mut s, true, 10, &none).unwrap();
    assert!(out.command.is_none());
    assert!(out.displayed.is_none());
    assert_eq!(p.update_stats(), None);
}

#[test]
fn change_to_unknown_playlist_fails() {
    let (mut p, mut s) = setup(playlist(ChangeMode::Sequential, 60, true, true));
    let r = p.change_playlist(&mut s, "nope", 10, &all_accessible);
    assert_eq!(r.err(), Some(ProcessorError::PlaylistDoesNotExist));
    assert_eq!(ProcessorError::PlaylistDoesNotExist.message(), "Specified playlist does not exist");
}

#[test]
fn switching_resumes_last_image() {
    let (mut p, mut s) = setup(playlist(ChangeMode::Sequential, 45, true, true));
    let out = p.change_playlist(&mut s, "evening", 500, &all_accessible).unwrap();
    assert_eq!(out.displayed, Some("/evening/c.jpg".to_string()));
    let cmd = out.command.unwrap();
    assert_eq!(cmd.args[1], "/evening/c.jpg");
    assert_eq!(s.get_last_execution_timestamp(JobKind::Trigger), Some(500));
    assert_eq!(s.due_jobs(544), vec![]);
    assert_eq!(s.due_jobs(545), vec![JobKind::Trigger]);
    let again = p.change_playlist(&mut s, "evening", 600, &all_accessible).unwrap();
    assert_eq!(again.displayed, None);
    assert_eq!(again.command.unwrap().args[1], "/evening/c.jpg");
    assert_eq!(p.update_stats(), Some("/evening/c.jpg".to_string()));
    assert_eq!(s.get_last_execution_timestamp(JobKind::Trigger), Some(600));
    let status = p.get_status(&s).unwrap();
    assert_eq!(status.current_playlist, "evening");
    assert_eq!(status.playlists[1].1.current_image, Some("/evening/c.jpg".to_string()));
}

#[test]
fn switching_without_resume_moves_on() {
    let (mut p, mut s) = setup(playlist(ChangeMode::Sequential, 45, true, false));
    let a = p.change_playlist(&mut s, "evening", 500, &all_accessible).unwrap();
    assert_eq!(a.displayed, Some("/evening/c.jpg".to_string()));
    let b = p.change_playlist(&mut s, "evening", 900, &all_accessible).unwrap();
    assert_eq!(b.displayed, Some("/evening/d.jpg".to_string()));
    assert_eq!(s.get_last_execution_timestamp(JobKind::Trigger), None);
}

#[test]
fn switching_without_trigger_only_reschedules() {
    let (mut p, mut s) = setup(playlist(ChangeMode::Sequential, 45, false, false));
    let out = p.change_playlist(&mut s, "evening", 500, &all_accessible).unwrap();
    assert!(out.command.is_none() && out.displayed.is_none() && out.skipped.is_none());
    assert_eq!(p.update_stats(), None);
    assert_eq!(s.due_jobs(0), vec![JobKind::Trigger]);
    assert!(s.due_jobs(44).is_empty());
    assert_eq!(s.due_jobs(45), vec![JobKind::Trigger]);
}

#[test]
fn refresh_rescans_every_playlist() {
    let (mut p, mut s) = setup(playlist(ChangeMode::Random, 60, true, true));
    s.prepare(JobKind::Refresh);
    let listings = vec![entries(&["/main/b.jpg"]), entries(&["/evening/c.jpg", "/evening/f.png"])];
    p.refresh_playlists(&mut s, &listings, true, 77).unwrap();
    assert_eq!(s.get_last_execution_timestamp(JobKind::Refresh), Some(77));
    p.trigger(&mut s, true, 80, &all_accessible).unwrap();
    let status = p.get_status(&s).unwrap();
    assert_eq!(status.playlists[0].1.total_files, 1);
    assert_eq!(status.playlists[0].1.current_image, Some("/main/b.jpg".to_string()));
    assert_eq!(status.playlists[1].1.total_files, 2);
}

#[test]
fn times_before_the_epoch_and_far_future_are_handled() {
    let (mut p, mut s) = setup(playlist(ChangeMode::Random, 60, true, false));
    s.prepare(JobKind::Refresh);
    let out = p.trigger(&mut s, true, -5_000, &all_accessible).unwrap();
    assert!(out.command.is_some());
    let status = p.get_status(&s).unwrap();
    assert_eq!(status.last_update, -5_000);
    assert_eq!(status.playlists[0].1.next_update, -4_400);
    let listings = vec![entries(&["/main/a.jpg"]), entries(&[])];
    p.refresh_playlists(&mut s, &listings, true, -4_000).unwrap();
    assert_eq!(s.get_last_execution_timestamp(JobKind::Refresh), Some(-4_000));
    let out = p.change_playlist(&mut s, "evening", -3_000, &all_accessible).unwrap();
    assert!(out.command.is_none());
    assert!(p.change_playlist(&mut s, "missing", -2_000, &all_accessible).is_err());
    p.change_playlist(&mut s, "main", i64::MAX - 10, &all_accessible).unwrap();
    let status = p.get_status(&s).unwrap();
    assert_eq!(status.last_update, i64::MAX - 10);
    assert_eq!(status.playlists[0].1.next_update, i64::MAX);
}

#[test]
fn change_exactly_at_skip_interval_is_not_a_skip() {
    let (mut p, mut s) = setup(playlist(ChangeMode::Sequential, 60, true, true));
    p.trigger(&mut s, false, 100, &all_accessible).unwrap();
    let second = p.trigger(&mut s, false, 110, &all_accessible).unwrap();
    assert_eq!(second.skipped, None);
    let third = p.trigger(&mut s, false, 119, &all_accessible).unwrap();
    assert_eq!(third.skipped, Some("/main/b.jpg".to_string()));
}

#[test]
fn unknown_playlist_leaves_scheduler_alone() {
    let (mut p, mut s) = setup(playlist(ChangeMode::Sequential, 45, true, true));
    p.trigger(&mut s, true, 50, &all_accessible).unwrap();
    assert!(p.change_playlist(&mut s, "nope", 60, &all_accessible).is_err());
    assert_eq!(s.get_last_execution_timestamp(JobKind::Trigger), Some(50));
    assert!(s.due_jobs(649).is_empty());
    assert_eq!(p.get_status(&s).unwrap().current_playlist, "main");
}
