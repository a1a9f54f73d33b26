use wcd::command::ChangeCommand;
use wcd::config::{ChangeMode, ValidatedPlaylist};

#[test]
fn placeholder_is_replaced_by_image_path() {
    let config = ValidatedPlaylist {
        files: vec![],
        directories: vec![],
        command: "feh".to_string(),
        command_args: vec!["--bg-fill".to_string(), "{}".to_string()],
        mode: ChangeMode::Sequential,
        change_every: 60,
        trigger_on_select: true,
        use_last_on_select: true,
    };
    let cmd = ChangeCommand::from_config(&config);
    let line = cmd.command_line(&"/tmp/a.jpg".to_string());
    assert_eq!(line.program, "feh");
    assert_eq!(line.args, vec!["--bg-fill".to_string(), "/tmp/a.jpg".to_string()]);
}

#[test]
fn arguments_without_placeholder_are_kept() {
    let config = ValidatedPlaylist {
        files: vec![],
        directories: vec![],
        command: "set-bg".to_string(),
        command_args: vec!["{}".to_string(), "{x}".to_string(), "{}".to_string()],
        mode: ChangeMode::Random,
        change_every: 1,
        trigger_on_select: false,
        use_last_on_select: false,
    };
    let line = ChangeCommand::from_config(&config).command_line(&"/p/b.png".to_string());
    assert_eq!(line.args, vec!["/p/b.png".to_string(), "{x}".to_string(), "/p/b.png".to_string()]);
}

#[test]
fn display_string_quotes_words_with_spaces() {
    let line = wcd::command::CommandLine {
        program: "my setter".to_string(),
        args: vec!["--fill".to_string(), "/p/a b.jpg".to_string(), "tab\there".to_string()],
    };
    assert_eq!(line.to_display_string(), "\"my setter\" --fill \"/p/a b.jpg\" \"tab\there\"");
    let plain = wcd::command::CommandLine { program: "feh".to_string(), args: vec![] };
    assert_eq!(plain.to_display_string(), "feh");
}
