use wcd::config::{
    parse_change_mode, parse_interval, parse_watch_mode, validate, ChangeMode, CommonConfig, Config,
    Defaults, ParsedDuration, Playlist, ServerConfig, ValidationError, WatchMode,
};
use wcd::util::{parse_duration, str_to_path, string_to_path};

#[test]
fn durations_in_every_unit() {
    assert_eq!(parse_duration("30s"), Some(30));
    assert_eq!(parse_duration("30"), None);
    assert_eq!(parse_duration(" 5 min "), Some(300));
    assert_eq!(parse_duration("2h"), Some(7200));
    assert_eq!(parse_duration("1 day"), Some(86400));
    assert_eq!(parse_duration("3d"), Some(259200));
    assert_eq!(parse_duration("1500ms"), Some(1));
    assert_eq!(parse_duration("999 millis"), Some(0));
    assert_eq!(parse_duration("2000000 us"), Some(2));
    assert_eq!(parse_duration("7000000000ns"), Some(7));
    assert_eq!(parse_duration("10 seconds"), Some(10));
    assert_eq!(parse_duration("1 minute"), Some(60));
}

#[test]
fn malformed_durations() {
    assert_eq!(parse_duration(""), None);
    assert_eq!(parse_duration("s"), None);
    assert_eq!(parse_duration("10 weeks"), None);
    assert_eq!(parse_duration("1.5h"), None);
    assert_eq!(parse_duration("-5s"), None);
    assert_eq!(parse_duration("99999999999999999999s"), None);
    assert_eq!(parse_duration("9223372036854775807 days"), None);
    assert_eq!(parse_duration("9223372036854775807 ns"), Some(9223372036));
}

#[test]
fn modes_and_watch() {
    assert_eq!(parse_change_mode("sequential"), Some(ChangeMode::Sequential));
    assert_eq!(parse_change_mode("random"), Some(ChangeMode::Random));
    assert_eq!(parse_change_mode("Random"), None);
    assert_eq!(parse_watch_mode("disabled"), Some(WatchMode::Disabled));
    assert_eq!(parse_watch_mode("1m"), Some(WatchMode::Poll(60)));
    assert_eq!(parse_watch_mode("sometimes"), None);
    assert_eq!(parse_interval("15 mins"), Some(ParsedDuration(900)));
}

#[test]
fn paths_without_tilde_are_kept() {
    assert_eq!(str_to_path("/etc/wcd.toml"), "/etc/wcd.toml");
    assert_eq!(str_to_path("~user/x"), "~user/x");
    assert_eq!(string_to_path(&"rel/a.png".to_string()), "rel/a.png");
    let home = str_to_path("~/pics");
    assert!(home.ends_with("/pics"));
    assert!(!home.starts_with('~'));
}

fn playlist(command: Option<Vec<&str>>, mode: Option<ChangeMode>, every: Option<i64>) -> Playlist {
    Playlist {
        files: vec!["/a.jpg".to_string()],
        directories: vec!["/pics".to_string()],
        command: command.map(|c| c.into_iter().map(String::from).collect()),
        mode,
        change_every: every.map(ParsedDuration),
        trigger_on_select: None,
        use_last_on_select: Some(false),
    }
}

fn config(default: &str, defaults: Option<Defaults>, playlists: Vec<(&str, Playlist)>) -> Config {
    Config {
        common: CommonConfig { endpoint: "127.0.0.1:7000".to_string() },
        server: ServerConfig {
            default_playlist: default.to_string(),
            watch: None,
            defaults,
            playlists: playlists.into_iter().map(|(n, p)| (n.to_string(), p)).collect(),
            stats_db: Some("/var/wcd/stats.db".to_string()),
        },
    }
}

fn defaults() -> Defaults {
    Defaults {
        command: Some(vec!["feh".to_string(), "--bg-fill".to_string(), "{}".to_string()]),
        mode: Some(ChangeMode::Random),
        change_every: Some(ParsedDuration(600)),
        trigger_on_select: Some(false),
        use_last_on_select: None,
    }
}

#[test]
fn validation_applies_defaults() {
    let c = config("main", Some(defaults()), vec![("main", playlist(None, Some(ChangeMode::Sequential), None))]);
    let v = validate(c).unwrap();
    assert_eq!(v.common.endpoint, "127.0.0.1:7000");
    assert_eq!(v.server.default_playlist, "main");
    assert_eq!(v.server.watch, WatchMode::Poll(30));
    assert_eq!(v.server.stats_db, Some("/var/wcd/stats.db".to_string()));
    let (name, p) = &v.server.playlists[0];
    assert_eq!(name, "main");
    assert_eq!(p.command, "feh");
    assert_eq!(p.command_args, vec!["--bg-fill".to_string(), "{}".to_string()]);
    assert_eq!(p.mode, ChangeMode::Sequential);
    assert_eq!(p.change_every, 600);
    assert!(!p.trigger_on_select);
    assert!(!p.use_last_on_select);
    assert_eq!(p.files, vec!["/a.jpg".to_string()]);
    assert_eq!(p.directories, vec!["/pics".to_string()]);
}

#[test]
fn select_settings_default_to_true() {
    let mut p = playlist(Some(vec!["x", "{}"]), Some(ChangeMode::Random), Some(5));
    p.use_last_on_select = None;
    let v = validate(config("a", None, vec![("a", p)])).unwrap();
    assert!(v.server.playlists[0].1.trigger_on_select);
    assert!(v.server.playlists[0].1.use_last_on_select);
}

#[test]
fn unknown_default_playlist() {
    let c = config("other", Some(defaults()), vec![("main", playlist(None, None, None))]);
    assert_eq!(validate(c).err(), Some(ValidationError::UnknownDefaultPlaylist("other".to_string())));
}

#[test]
fn bad_default_command() {
    let mut d = defaults();
    d.command = Some(vec![]);
    let c = config("main", Some(d), vec![("main", playlist(None, None, None))]);
    assert_eq!(validate(c).err(), Some(ValidationError::EmptyCommand(None)));
    let mut d = defaults();
    d.command = Some(vec!["feh".to_string()]);
    let c = config("main", Some(d), vec![("main", playlist(None, None, None))]);
    assert_eq!(validate(c).err(), Some(ValidationError::MissingPlaceholder(None)));
}

#[test]
fn playlist_faults() {
    let c = config("a", None, vec![("a", playlist(None, Some(ChangeMode::Random), Some(5)))]);
    assert_eq!(validate(c).err(), Some(ValidationError::NoCommand("a".to_string())));
    let c = config("a", None, vec![("a", playlist(Some(vec!["x"]), Some(ChangeMode::Random), Some(5)))]);
    assert_eq!(validate(c).err(), Some(ValidationError::MissingPlaceholder(Some("a".to_string()))));
    let c = config("a", None, vec![("a", playlist(Some(vec![]), Some(ChangeMode::Random), Some(5)))]);
    assert_eq!(validate(c).err(), Some(ValidationError::EmptyCommand(Some("a".to_string()))));
    let c = config("a", None, vec![("a", playlist(Some(vec!["x", "{}"]), None, Some(5)))]);
    assert_eq!(validate(c).err(), Some(ValidationError::NoMode("a".to_string())));
    let c = config("a", None, vec![("a", playlist(Some(vec!["x", "{}"]), Some(ChangeMode::Random), None))]);
    assert_eq!(validate(c).err(), Some(ValidationError::NoChangeInterval("a".to_string())));
}

#[test]
fn first_faulty_playlist_is_reported() {
    let c = config(
        "b",
        None,
        vec![
            ("a", playlist(Some(vec!["x", "{}"]), Some(ChangeMode::Random), Some(5))),
            ("b", playlist(Some(vec!["x", "{}"]), None, Some(5))),
            ("c", playlist(None, None, None)),
        ],
    );
    assert_eq!(validate(c).err(), Some(ValidationError::NoMode("b".to_string())));
}
