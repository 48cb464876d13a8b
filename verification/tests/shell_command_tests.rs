use clippo::linux_cli::{parse_shell_command, ShellCommand};

fn args(values: &[&str]) -> Vec<String> {
    let mut all = vec!["clippo-linux".to_string()];
    all.extend(values.iter().map(|value| value.to_string()));
    all
}

#[test]
fn no_arguments_opens_history() {
    assert_eq!(parse_shell_command(&args(&[])), ShellCommand::ShowHistory);
}

#[test]
fn status_wins_over_other_flags() {
    assert_eq!(
        parse_shell_command(&args(&["--show-history", "--status"])),
        ShellCommand::Status
    );
}

#[test]
fn autostart_and_shortcut_flags_are_recognised() {
    assert_eq!(
        parse_shell_command(&args(&["--enable-autostart"])),
        ShellCommand::EnableAutostart
    );
    assert_eq!(
        parse_shell_command(&args(&["--disable-autostart"])),
        ShellCommand::DisableAutostart
    );
    assert_eq!(
        parse_shell_command(&args(&["--install-x11-shortcut"])),
        ShellCommand::InstallX11Shortcut
    );
}

#[test]
fn shortcut_commands_read_the_first_character() {
    assert_eq!(
        parse_shell_command(&args(&["--copy-shortcut=3"])),
        ShellCommand::CopyShortcut('3')
    );
    assert_eq!(
        parse_shell_command(&args(&["--paste-plain-shortcut=ab"])),
        ShellCommand::PastePlainShortcut('a')
    );
    assert_eq!(
        parse_shell_command(&args(&["--toggle-pin-shortcut=z"])),
        ShellCommand::TogglePinShortcut('z')
    );
}

#[test]
fn empty_shortcut_argument_falls_back_to_status() {
    assert_eq!(
        parse_shell_command(&args(&["--copy-shortcut="])),
        ShellCommand::Status
    );
}

#[test]
fn text_commands_keep_the_whole_value() {
    assert_eq!(
        parse_shell_command(&args(&["--delete-text=hello = world"])),
        ShellCommand::DeleteText("hello = world".to_string())
    );
    assert_eq!(
        parse_shell_command(&args(&["--toggle-pin="])),
        ShellCommand::TogglePin(String::new())
    );
    assert_eq!(
        parse_shell_command(&args(&["--paste-plain-text=x"])),
        ShellCommand::PastePlainText("x".to_string())
    );
}

#[test]
fn unknown_arguments_show_status() {
    assert_eq!(
        parse_shell_command(&args(&["--no-such-flag"])),
        ShellCommand::Status
    );
}
