use std::collections::HashSet;

use wcd::config::{ChangeMode, ValidatedPlaylist};
use wcd::files::ScanEntry;
use wcd::playlist::{Apply, Playlist};

fn config(mode: ChangeMode) -> ValidatedPlaylist {
    ValidatedPlaylist {
        files: vec![],
        directories: vec!["/pics".to_string()],
        command: "feh".to_string(),
        command_args: vec!["--bg-fill".to_string(), "{}".to_string()],
        mode,
        change_every: 60,
        trigger_on_select: true,
        use_last_on_select: true,
    }
}

fn entry(path: &str, is_file: bool) -> ScanEntry {
    ScanEntry { path: path.to_string(), is_file }
}

fn listing(paths: &[&str]) -> Vec<ScanEntry> {
    paths.iter().map(|p| entry(p, true)).collect()
}

fn current_path(p: &Playlist) -> Option<String> {
    p.current().map(|i| i.path.clone())
}

#[test]
fn random_cycle_visits_each_image_once() {
    let paths = ["/pics/a.jpg", "/pics/b.png", "/pics/c.gif", "/pics/d.jpeg", "/pics/e.JPG"];
    let mut p = Playlist::from_config(config(ChangeMode::Random), &listing(&paths));
    assert_eq!(p.len(), 5);
    let mut seen = HashSet::new();
    for _ in 0..5 {
        p.move_to_next_image();
        assert!(seen.insert(current_path(&p).unwrap()));
    }
    let expected: HashSet<String> = paths.iter().map(|s| s.to_string()).collect();
    assert_eq!(seen, expected);
}

#[test]
fn sequential_mode_follows_listing_order() {
    let paths = ["/pics/a.jpg", "/pics/b.png", "/pics/c.gif"];
    let mut p = Playlist::from_config(config(ChangeMode::Sequential), &listing(&paths));
    let mut order = Vec::new();
    for _ in 0..6 {
        p.move_to_next_image();
        order.push(current_path(&p).unwrap());
    }
    let expected: Vec<String> =
        paths.iter().chain(paths.iter()).map(|s| s.to_string()).collect();
    assert_eq!(order, expected);
}

#[test]
fn cycle_restarts_with_usable_image() {
    let paths = ["/pics/a.jpg", "/pics/b.png"];
    let mut p = Playlist::from_config(config(ChangeMode::Random), &listing(&paths));
    p.move_to_next_image();
    p.move_to_next_image();
    p.move_to_next_image();
    let cur = current_path(&p).unwrap();
    assert!(paths.contains(&cur.as_str()));
    assert_eq!(p.len(), 2);
}

#[test]
fn unusable_image_is_dropped_at_restart() {
    let paths = ["/pics/a.jpg", "/pics/b.png"];
    let mut p = Playlist::from_config(config(ChangeMode::Sequential), &listing(&paths));
    p.move_to_next_image();
    assert_eq!(current_path(&p).unwrap(), "/pics/a.jpg");
    assert!(matches!(p.apply_current_image(false), Apply::Unusable));
    p.move_to_next_image();
    assert_eq!(current_path(&p).unwrap(), "/pics/b.png");
    p.move_to_next_image();
    assert_eq!(p.len(), 1);
    assert_eq!(current_path(&p).unwrap(), "/pics/b.png");
}

#[test]
fn empty_playlist_is_safe() {
    let entries = vec![entry("/pics/notes.txt", true), entry("/pics/gone.jpg", false)];
    let mut p = Playlist::from_config(config(ChangeMode::Random), &entries);
    assert_eq!(p.len(), 0);
    p.move_to_next_image();
    assert!(p.current().is_none());
    let a = p.apply_current_image(true);
    assert!(matches!(a, Apply::Nothing));
    assert!(a.succeeded());
    assert!(p.move_to_next_image_if_first_time());
    assert!(p.current().is_none());
}

#[test]
fn first_time_move_only_once() {
    let mut p = Playlist::from_config(config(ChangeMode::Sequential), &listing(&["/pics/a.jpg", "/pics/b.jpg"]));
    assert!(p.move_to_next_image_if_first_time());
    assert_eq!(current_path(&p).unwrap(), "/pics/a.jpg");
    assert!(!p.move_to_next_image_if_first_time());
    assert_eq!(current_path(&p).unwrap(), "/pics/a.jpg");
}

#[test]
fn apply_builds_command_for_current_image() {
    let mut p = Playlist::from_config(config(ChangeMode::Sequential), &listing(&["/pics/a.jpg"]));
    p.move_to_next_image();
    match p.apply_current_image(true) {
        Apply::Run(c) => {
            assert_eq!(c.program, "feh");
            assert_eq!(c.args, vec!["--bg-fill".to_string(), "/pics/a.jpg".to_string()]);
        }
        _ => panic!("expected a command"),
    }
}

#[test]
fn rescan_twice_changes_nothing_the_second_time() {
    let mut p = Playlist::from_config(config(ChangeMode::Random), &listing(&["/pics/a.jpg", "/pics/b.jpg"]));
    let fresh = listing(&["/pics/b.jpg", "/pics/c.jpg"]);
    let first = p.update(&fresh);
    assert_eq!(first.added.len(), 1);
    assert_eq!(first.removed.len(), 1);
    let second = p.update(&fresh);
    assert!(second.added.is_empty());
    assert!(second.removed.is_empty());
    assert_eq!(p.len(), 2);
}

#[test]
fn rescan_removes_and_adds_but_keeps_current() {
    let mut p = Playlist::from_config(config(ChangeMode::Sequential), &listing(&["/pics/a.jpg", "/pics/b.jpg"]));
    p.move_to_next_image();
    assert_eq!(current_path(&p).unwrap(), "/pics/a.jpg");
    let r = p.update(&listing(&["/pics/b.jpg", "/pics/c.jpg"]));
    assert_eq!(r.added.iter().map(|i| i.path.clone()).collect::<Vec<_>>(), vec!["/pics/c.jpg"]);
    assert_eq!(r.removed.iter().map(|i| i.path.clone()).collect::<Vec<_>>(), vec!["/pics/a.jpg"]);
    assert_eq!(p.len(), 2);
    assert_eq!(current_path(&p).unwrap(), "/pics/a.jpg");
    let mut rest = Vec::new();
    for _ in 0..2 {
        p.move_to_next_image();
        rest.push(current_path(&p).unwrap());
    }
    assert_eq!(rest, vec!["/pics/b.jpg", "/pics/c.jpg"]);
}
