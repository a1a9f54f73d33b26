use wcd::files::{check_file, check_file_format, rescan_playlist, scan_playlist, ScanEntry};
use wcd::playlist::Image;

#[test]
fn recognised_extensions() {
    for p in ["a.jpg", "b.jpeg", "c.png", "d.gif", "/x/y/E.JPG", "f.JpEg", "dir/g.b.Png", "/tmp/.hidden.gif"] {
        assert!(check_file_format(p), "{}", p);
    }
}

#[test]
fn rejected_paths() {
    for p in ["", "a.txt", "jpg", ".jpg", "/x/.png", "dir.jpg/file", "a.jpg.bak", "a.", "a.jpgx", "a.jp"] {
        assert!(!check_file_format(p), "{}", p);
    }
}

#[test]
fn check_file_needs_an_accessible_file() {
    assert!(check_file("a.png", true));
    assert!(!check_file("a.png", false));
    assert!(!check_file("a.doc", true));
}

#[test]
fn scan_keeps_qualifying_entries_in_order() {
    let entries = vec![
        ScanEntry { path: "/p/b.jpg".to_string(), is_file: true },
        ScanEntry { path: "/p/notes.txt".to_string(), is_file: true },
        ScanEntry { path: "/p/sub.png".to_string(), is_file: false },
        ScanEntry { path: "/p/a.gif".to_string(), is_file: true },
    ];
    let images = scan_playlist(&entries);
    let paths: Vec<String> = images.iter().map(|i| i.path.clone()).collect();
    assert_eq!(paths, vec!["/p/b.jpg", "/p/a.gif"]);
    assert!(images.iter().all(|i| i.usable));
}

#[test]
fn rescan_reports_added_and_removed() {
    let existing = vec![
        Image { path: "/p/a.jpg".to_string(), usable: true },
        Image { path: "/p/b.jpg".to_string(), usable: true },
    ];
    let entries = vec![
        ScanEntry { path: "/p/b.jpg".to_string(), is_file: true },
        ScanEntry { path: "/p/c.jpg".to_string(), is_file: true },
        ScanEntry { path: "/p/a.jpg".to_string(), is_file: false },
    ];
    let r = rescan_playlist(&entries, &existing);
    assert_eq!(r.added.len(), 1);
    assert_eq!(r.added[0].path, "/p/c.jpg");
    assert_eq!(r.removed.len(), 1);
    assert_eq!(r.removed[0].path, "/p/a.jpg");
}

#[test]
fn image_check() {
    let img = Image { path: "/p/a.jpeg".to_string(), usable: true };
    assert!(img.check(true));
    assert!(!img.check(false));
}
