use wcd::config::ChangeMode;
use wcd::proto;
use wcd::wire;

#[test]
fn playlist_name_accessors() {
    let mut n = wire::PlaylistName::new();
    assert_eq!(n.get_name(), "");
    n.set_name("work".to_string());
    assert_eq!(n.get_name(), "work");
    n.mut_name().push_str("-2");
    assert_eq!(n.get_name(), "work-2");
    assert_eq!(n.take_name(), "work-2");
    assert_eq!(n.get_name(), "");
    n.set_name("x".to_string());
    n.clear_name();
    assert_eq!(n.get_name(), "");
    let _ = wire::Empty::new();
}

#[test]
fn playlist_info_accessors() {
    let mut p = wire::PlaylistInfo::new();
    assert_eq!(p.get_mode(), wire::ChangeMode::SEQUENTIAL);
    p.set_mode(wire::ChangeMode::RANDOM);
    p.set_total_files(7);
    p.set_next_update(-3);
    p.set_trigger_on_select(true);
    p.set_use_last_on_select(true);
    p.set_directories(vec!["/d".to_string()]);
    p.mut_files().push("/f.jpg".to_string());
    p.set_current_image("/f.jpg".to_string());
    assert_eq!(p.get_mode(), wire::ChangeMode::RANDOM);
    assert_eq!(p.get_total_files(), 7);
    assert_eq!(p.get_next_update(), -3);
    assert!(p.get_trigger_on_select() && p.get_use_last_on_select());
    assert_eq!(p.get_directories(), &["/d".to_string()]);
    assert_eq!(p.get_files(), &["/f.jpg".to_string()]);
    assert_eq!(p.get_current_image(), "/f.jpg");
    assert_eq!(p.take_directories(), vec!["/d".to_string()]);
    assert!(p.get_directories().is_empty());
    p.clear_files();
    p.clear_total_files();
    p.clear_mode();
    p.clear_next_update();
    p.clear_trigger_on_select();
    p.clear_use_last_on_select();
    assert_eq!(p.take_current_image(), "/f.jpg");
    p.set_current_image("z".to_string());
    p.clear_current_image();
    assert_eq!(p.mut_current_image().len(), 0);
    assert!(p.get_files().is_empty());
    assert_eq!(p.get_total_files(), 0);
    assert_eq!(p.get_mode(), wire::ChangeMode::SEQUENTIAL);
    assert_eq!(p.get_next_update(), 0);
    assert!(!p.get_trigger_on_select() && !p.get_use_last_on_select());
    p.mut_directories().push("/e".to_string());
    assert_eq!(p.take_files(), Vec::<String>::new());
    assert_eq!(p.get_directories().len(), 1);
}

#[test]
fn status_and_stats_accessors() {
    let mut s = wire::StatusInfo::new();
    s.set_current_playlist("main".to_string());
    s.set_last_update(42);
    s.mut_playlists().push(("main".to_string(), wire::PlaylistInfo::new()));
    assert_eq!(s.get_current_playlist(), "main");
    assert_eq!(s.get_last_update(), 42);
    assert_eq!(s.get_playlists().len(), 1);
    assert_eq!(s.take_playlists().len(), 1);
    s.set_playlists(vec![]);
    s.clear_playlists();
    assert!(s.get_playlists().is_empty());
    s.mut_current_playlist().push('!');
    assert_eq!(s.take_current_playlist(), "main!");
    s.clear_current_playlist();
    s.clear_last_update();
    assert_eq!(s.get_last_update(), 0);

    let mut i = wire::ImageStatsInfo::new();
    i.set_filename("/a.jpg".to_string());
    i.set_total_displays(3);
    i.set_total_skips(1);
    i.set_total_display_time(15);
    assert_eq!(i.get_filename(), "/a.jpg");
    assert_eq!((i.get_total_displays(), i.get_total_skips(), i.get_total_display_time()), (3, 1, 15));
    i.mut_filename().push('x');
    assert_eq!(i.take_filename(), "/a.jpgx");
    i.clear_filename();
    i.clear_total_displays();
    i.clear_total_skips();
    i.clear_total_display_time();
    assert_eq!((i.get_total_displays(), i.get_total_skips(), i.get_total_display_time()), (0, 0, 0));

    let mut st = wire::StatsInfo::new();
    st.set_image_stats(vec![wire::ImageStatsInfo::new()]);
    st.mut_image_stats().push(wire::ImageStatsInfo::new());
    assert_eq!(st.get_image_stats().len(), 2);
    assert_eq!(st.take_image_stats().len(), 2);
    st.clear_image_stats();
    assert!(st.get_image_stats().is_empty());
}

#[test]
fn change_mode_values() {
    assert_eq!(wire::ChangeMode::SEQUENTIAL.value(), 0);
    assert_eq!(wire::ChangeMode::RANDOM.value(), 1);
    assert_eq!(wire::ChangeMode::from_i32(1), Some(wire::ChangeMode::RANDOM));
    assert_eq!(wire::ChangeMode::from_i32(2), None);
}

#[test]
fn status_round_trip_through_wire() {
    let info = proto::PlaylistInfo {
        directories: vec!["/d".to_string()],
        files: vec![],
        total_files: 4,
        mode: ChangeMode::Random,
        current_image: None,
        trigger_on_select: true,
        use_last_on_select: false,
        next_update: 99,
    };
    let status = proto::StatusInfo {
        playlists: vec![("main".to_string(), info.clone())],
        current_playlist: "main".to_string(),
        last_update: 9,
    };
    let w = status.clone().to_wire();
    assert_eq!(w.playlists[0].1.current_image, "");
    assert_eq!(w.playlists[0].1.mode, wire::ChangeMode::RANDOM);
    assert_eq!(proto::StatusInfo::from_wire(w), status);

    let mut shown = info.clone();
    shown.current_image = Some("/d/a.png".to_string());
    let w = shown.clone().to_wire();
    assert_eq!(w.current_image, "/d/a.png");
    assert_eq!(proto::PlaylistInfo::from_wire(w), shown);
}

#[test]
fn clear_resets_every_field() {
    let mut p = wire::PlaylistInfo::new();
    p.set_total_files(3);
    p.set_current_image("x".to_string());
    p.set_mode(wire::ChangeMode::RANDOM);
    p.clear();
    assert_eq!(p, wire::PlaylistInfo::new());
    let mut i = wire::ImageStatsInfo::new();
    i.set_total_skips(2);
    i.clear();
    assert_eq!(i, wire::ImageStatsInfo::new());
    assert_eq!(wire::ChangeMode::values(), vec![wire::ChangeMode::SEQUENTIAL, wire::ChangeMode::RANDOM]);
}
