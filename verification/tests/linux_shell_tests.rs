use clippo::linux_dialogs::{
    append_block, remove_managed_block, xbindkeys_block, zenity_history_action_command,
    zenity_history_command, zenity_info_command, zenity_search_command, HistoryAction,
    X11_END_MARKER, X11_START_MARKER,
};
use clippo::linux_files::{
    parse_history_file, parse_state_file, serialize_history_file, serialize_state_file,
    LinuxShellState, ShellFileError,
};
use clippo::linux_history::{filter_history_for_search, visible_shortcut_for_index, LinuxHistoryItem};
use clippo::linux_portal::{
    activation_matches, portal_token, PortalAvailability, WaylandGlobalShortcutsPortal,
};
use clippo::linux_shell::{
    first_char, notification_summary, should_open_history_by_default, ClipboardMonitor,
    DesktopEnvironment, LinuxClipboardBackend, LinuxPasteBackend, SessionKind,
};

#[test]
fn wayland_fallback_explains_desktop_shortcut() {
    let message = SessionKind::Wayland.shortcut_fallback_message();
    assert!(message.contains("portal"));
    assert!(message.contains("desktop shortcut"));
    assert!(message.contains("clippo-linux --show-history"));
}

#[test]
fn wayland_global_shortcuts_probe_uses_xdg_portal_introspection() {
    let command = WaylandGlobalShortcutsPortal::probe_command();
    assert_eq!(command.program, "gdbus");
    assert!(command.args.iter().any(|arg| arg == "introspect"));
    assert!(command.args.iter().any(|arg| arg == "--session"));
    assert!(command
        .args
        .iter()
        .any(|arg| arg == "org.freedesktop.portal.Desktop"));
    assert!(command
        .args
        .iter()
        .any(|arg| arg == "/org/freedesktop/portal/desktop"));
}

#[test]
fn wayland_global_shortcuts_create_session_command_uses_portal_api() {
    let command = WaylandGlobalShortcutsPortal::create_session_command(
        "clippo_create_shortcuts",
        "clippo_shortcuts",
    );
    assert_eq!(command.program, "gdbus");
    assert!(command.args.iter().any(|arg| arg == "call"));
    assert!(command
        .args
        .iter()
        .any(|arg| arg == "org.freedesktop.portal.GlobalShortcuts.CreateSession"));
    assert!(command
        .args
        .iter()
        .any(|arg| arg.contains("'handle_token': <'clippo_create_shortcuts'>")));
    assert!(command
        .args
        .iter()
        .any(|arg| arg.contains("'session_handle_token': <'clippo_shortcuts'>")));
}

#[test]
fn wayland_global_shortcuts_bind_command_includes_open_history_shortcut() {
    let shortcuts = WaylandGlobalShortcutsPortal::default_shortcuts();
    let command = WaylandGlobalShortcutsPortal::bind_shortcuts_command(
        "/org/freedesktop/portal/desktop/session/clippo_shortcuts",
        "clippo_bind_shortcuts",
        &shortcuts,
    );
    assert_eq!(command.program, "gdbus");
    assert!(command
        .args
        .iter()
        .any(|arg| arg == "org.freedesktop.portal.GlobalShortcuts.BindShortcuts"));
    assert!(command
        .args
        .iter()
        .any(|arg| arg == "/org/freedesktop/portal/desktop/session/clippo_shortcuts"));
    assert!(command.args.iter().any(|arg| arg.contains("open-history")));
    assert!(command
        .args
        .iter()
        .any(|arg| arg.contains("Open Clippo history")));
    assert!(command.args.iter().any(|arg| arg.contains("Super+Shift+C")));
}

#[test]
fn wayland_global_shortcuts_list_and_monitor_commands_use_portal_api() {
    let list = WaylandGlobalShortcutsPortal::list_shortcuts_command(
        "/org/freedesktop/portal/desktop/session/clippo_shortcuts",
        "clippo_list_shortcuts",
    );
    assert!(list
        .args
        .iter()
        .any(|arg| arg == "org.freedesktop.portal.GlobalShortcuts.ListShortcuts"));

    let monitor = WaylandGlobalShortcutsPortal::monitor_command();
    assert_eq!(monitor.program, "gdbus");
    assert!(monitor.args.iter().any(|arg| arg == "monitor"));
    assert!(monitor
        .args
        .iter()
        .any(|arg| arg == "org.freedesktop.portal.Desktop"));
}

#[test]
fn wayland_global_shortcuts_probe_parses_available_interface() {
    let introspection = r"
        interface org.freedesktop.portal.GlobalShortcuts {
          methods:
          signals:
          properties:
            readonly u version = 2;
        };
    ";

    assert_eq!(
        WaylandGlobalShortcutsPortal::parse_introspection(introspection),
        PortalAvailability::Available { version: Some(2) }
    );
}

#[test]
fn wayland_global_shortcuts_probe_reports_missing_interface() {
    let introspection = "interface org.freedesktop.portal.FileChooser {};";
    assert_eq!(
        WaylandGlobalShortcutsPortal::parse_introspection(introspection),
        PortalAvailability::Unavailable
    );
}

#[test]
fn wayland_clipboard_fallback_explains_manual_paths() {
    let messages = SessionKind::Wayland
        .clipboard_fallback_messages()
        .join("\n");
    assert!(messages.contains("manual copy/paste"));
    assert!(messages.contains("copy the selected item"));
    assert!(messages.contains("paste manually"));
}

#[test]
fn desktop_environment_detection_handles_common_desktops() {
    assert_eq!(
        DesktopEnvironment::from_env_values(Some("GNOME"), None),
        DesktopEnvironment::Gnome
    );
    assert_eq!(
        DesktopEnvironment::from_env_values(Some("KDE"), Some("plasma")),
        DesktopEnvironment::Kde
    );
    assert_eq!(
        DesktopEnvironment::from_env_values(None, Some("xfce")),
        DesktopEnvironment::Xfce
    );
    assert_eq!(
        DesktopEnvironment::from_env_values(None, None),
        DesktopEnvironment::Unknown
    );
}

#[test]
fn desktop_environment_reports_tray_strategy() {
    assert!(DesktopEnvironment::Gnome
        .tray_strategy()
        .contains("extension"));
    assert!(DesktopEnvironment::Kde
        .tray_strategy()
        .contains("StatusNotifierItem"));
    assert!(DesktopEnvironment::Unknown
        .tray_strategy()
        .contains("best effort"));
}

#[test]
fn clipboard_backend_matches_session_kind() {
    assert_eq!(
        LinuxClipboardBackend::for_session(SessionKind::X11),
        Some(LinuxClipboardBackend::X11)
    );
    assert_eq!(
        LinuxClipboardBackend::for_session(SessionKind::Wayland),
        Some(LinuxClipboardBackend::Wayland)
    );
    assert_eq!(
        LinuxClipboardBackend::for_session(SessionKind::Unknown),
        None
    );
}

#[test]
fn clipboard_backends_use_expected_linux_tools() {
    let x11_read = LinuxClipboardBackend::X11.read_command();
    assert_eq!(x11_read.program, "xclip");
    assert!(x11_read.args.contains(&"-selection"));
    assert!(x11_read.args.contains(&"clipboard"));

    let wayland_write = LinuxClipboardBackend::Wayland.write_command();
    assert_eq!(wayland_write.program, "wl-copy");
    assert!(wayland_write.args.contains(&"--type"));
}

#[test]
fn paste_backend_is_available_only_for_x11() {
    assert_eq!(
        LinuxPasteBackend::for_session(SessionKind::X11),
        Some(LinuxPasteBackend::X11)
    );
    assert_eq!(LinuxPasteBackend::for_session(SessionKind::Wayland), None);
    assert_eq!(LinuxPasteBackend::for_session(SessionKind::Unknown), None);
}

#[test]
fn x11_paste_backend_uses_xdotool_shortcuts() {
    let formatted = LinuxPasteBackend::X11.paste_command(false);
    assert_eq!(formatted.program, "xdotool");
    assert_eq!(formatted.args, vec!["key", "--clearmodifiers", "ctrl+v"]);

    let plain = LinuxPasteBackend::X11.paste_command(true);
    assert_eq!(plain.program, "xdotool");
    assert_eq!(plain.args, vec!["key", "--clearmodifiers", "ctrl+shift+v"]);
}

#[test]
fn clipboard_monitor_reports_only_changed_non_empty_text() {
    let mut monitor = ClipboardMonitor::default();
    assert_eq!(monitor.poll_changed(None), None);
    assert_eq!(
        monitor.poll_changed(Some("first".to_string())),
        Some("first".to_string())
    );
    assert_eq!(monitor.poll_changed(Some("first".to_string())), None);
    assert_eq!(
        monitor.poll_changed(Some("second".to_string())),
        Some("second".to_string())
    );
}

#[test]
fn no_args_open_history_by_default_but_status_is_explicit() {
    assert!(should_open_history_by_default(
        &["clippo-linux".to_string()]
    ));
    assert!(!should_open_history_by_default(&[
        "clippo-linux".to_string(),
        "--status".to_string()
    ]));
}

#[test]
fn xbindkeys_block_installs_open_history_shortcut() {
    let block = xbindkeys_block("/usr/bin/clippo-linux");
    assert!(block.contains("\"/usr/bin/clippo-linux --show-history\""));
    assert!(block.contains("Mod4+Shift + c"));
    assert!(block.contains("\"/usr/bin/clippo-linux --preferences\""));
    assert!(block.contains("Mod4 + comma"));
    assert!(block.contains("\"/usr/bin/clippo-linux --clear-unpinned\""));
    assert!(block.contains("Mod4+Control + Delete"));
    assert!(block.contains("\"/usr/bin/clippo-linux --clear-all\""));
    assert!(block.contains("Mod4+Shift+Control + Delete"));
    assert!(block.contains("\"/usr/bin/clippo-linux --copy-shortcut=1\""));
    assert!(block.contains("Mod4 + 1"));
    assert!(block.contains("\"/usr/bin/clippo-linux --paste-shortcut=1\""));
    assert!(block.contains("Mod4+Mod1 + 1"));
    assert!(block.contains("\"/usr/bin/clippo-linux --paste-plain-shortcut=1\""));
    assert!(block.contains("Mod4+Shift+Mod1 + 1"));
    assert!(block.contains("\"/usr/bin/clippo-linux --toggle-pin-shortcut=1\""));
    assert!(block.contains("Mod4+Shift + 1"));
    assert!(block.contains("\"/usr/bin/clippo-linux --delete-shortcut=1\""));
    assert!(block.contains("Mod4+Control + 1"));
}

#[test]
fn x11_shortcut_install_replaces_only_managed_block() {
    let existing =
        "custom-before\n# BEGIN CLIPPO SHORTCUTS\nold\n# END CLIPPO SHORTCUTS\ncustom-after";
    let cleaned = remove_managed_block(
        existing,
        X11_START_MARKER,
        X11_END_MARKER,
    );
    let updated = append_block(
        &cleaned,
        &xbindkeys_block("/usr/bin/clippo-linux"),
    );
    assert!(updated.contains("custom-before"));
    assert!(updated.contains("custom-after"));
    assert!(!updated.contains("\nold\n"));
    assert!(updated.contains("--show-history"));
}

#[test]
fn linux_shell_state_round_trips_key_value_file() {
    let state = LinuxShellState {
        capture_paused: true,
        ignore_next_copy: true,
    };
    let serialized = serialize_state_file(state);
    assert!(serialized.contains("capture_paused=true"));
    assert_eq!(parse_state_file(&serialized).unwrap(), state);
}

#[test]
fn invalid_linux_shell_state_is_rejected() {
    let error = parse_state_file("capture_paused=maybe").unwrap_err();
    assert!(matches!(error, ShellFileError::InvalidData(_)));
}

#[test]
fn linux_history_file_round_trips_escaped_text() {
    let history = vec![
        LinuxHistoryItem {
            text: "first\nline".to_string(),
            pinned: true,
            pinned_shortcut: Some('1'),
        },
        LinuxHistoryItem {
            text: "tab\tbackslash\\".to_string(),
            pinned: false,
            pinned_shortcut: None,
        },
    ];
    let serialized = serialize_history_file(&history);
    assert!(serialized.contains("1\t1\tfirst\\nline"));
    assert_eq!(parse_history_file(&serialized).unwrap(), history);
    let legacy = parse_history_file("1\tlegacy pinned").unwrap();
    assert_eq!(legacy[0].text, "legacy pinned");
    assert!(legacy[0].pinned);
    assert_eq!(legacy[0].pinned_shortcut, None);
}

#[test]
fn zenity_history_command_models_compact_popup_rows() {
    let command = zenity_history_command(&[
        LinuxHistoryItem {
            text: "Pinned value".to_string(),
            pinned: true,
            pinned_shortcut: Some('7'),
        },
        LinuxHistoryItem::new("Recent value"),
    ]);
    assert_eq!(command.program, "zenity");
    assert!(command.args.contains(&"--list".to_string()));
    assert!(command.args.contains(&"Shortcut".to_string()));
    assert!(command.args.contains(&"Pin".to_string()));
    assert!(command.args.contains(&"Clip".to_string()));
    assert!(command.args.contains(
        &"Use arrow keys and Enter to copy the selected clipboard item.".to_string()
    ));
    assert!(command.args.contains(&"7".to_string()));
    assert!(command.args.contains(&"Pinned value".to_string()));
    assert!(command.args.contains(&"Recent value".to_string()));
}

#[test]
fn zenity_history_command_omits_unusable_shortcuts_after_nine_rows() {
    let history = (1..=10)
        .map(|index| LinuxHistoryItem::new(&format!("item {index}")))
        .collect::<Vec<_>>();

    let command = zenity_history_command(&history);
    let item_10_index = command
        .args
        .iter()
        .position(|arg| arg == "item 10")
        .expect("item 10 should be present");

    assert_eq!(command.args[item_10_index - 2], "");
}

#[test]
fn zenity_history_action_command_exposes_main_item_actions() {
    let command = zenity_history_action_command(false);
    assert_eq!(command.program, "zenity");
    assert!(command.args.contains(&"--list".to_string()));
    assert!(command
        .args
        .contains(&"Choose an action for the selected clipboard item.".to_string()));
    assert!(command.args.contains(&"Copy".to_string()));
    assert!(command.args.contains(&"Paste".to_string()));
    assert!(command
        .args
        .contains(&"Paste Without Formatting".to_string()));
    assert!(command.args.contains(&"Show Full Text".to_string()));
    assert!(command.args.contains(&"Pin".to_string()));
    assert!(command.args.contains(&"Delete".to_string()));
}

#[test]
fn zenity_history_action_command_switches_pin_label_for_pinned_items() {
    let command = zenity_history_action_command(true);
    assert!(command.args.contains(&"Unpin".to_string()));
    assert!(!command.args.contains(&"Pin".to_string()));
}

#[test]
fn history_action_labels_map_to_actions() {
    assert_eq!(HistoryAction::from_label("Copy"), Some(HistoryAction::Copy));
    assert_eq!(
        HistoryAction::from_label("Paste"),
        Some(HistoryAction::Paste)
    );
    assert_eq!(
        HistoryAction::from_label("Paste Without Formatting"),
        Some(HistoryAction::PastePlain)
    );
    assert_eq!(
        HistoryAction::from_label("Show Full Text"),
        Some(HistoryAction::ShowFullText)
    );
    assert_eq!(
        HistoryAction::from_label("Pin"),
        Some(HistoryAction::TogglePin)
    );
    assert_eq!(
        HistoryAction::from_label("Unpin"),
        Some(HistoryAction::TogglePin)
    );
    assert_eq!(
        HistoryAction::from_label("Delete"),
        Some(HistoryAction::Delete)
    );
    assert_eq!(HistoryAction::from_label("Unknown"), None);
}

#[test]
fn zenity_search_command_starts_with_focused_entry() {
    let command = zenity_search_command();
    assert_eq!(command.program, "zenity");
    assert!(command.args.contains(&"--entry".to_string()));
    assert!(command
        .args
        .contains(&"Search clipboard history".to_string()));
    assert!(command.args.contains(&"--entry-text".to_string()));
}

#[test]
fn linux_history_search_filters_case_insensitively() {
    let history = vec![
        LinuxHistoryItem::new("Invoice Alpha"),
        LinuxHistoryItem::new("release notes"),
        LinuxHistoryItem::new("ALPHA roadmap"),
    ];

    let filtered = filter_history_for_search(&history, "alpha");
    assert_eq!(filtered.len(), 2);
    assert_eq!(filtered[0].text, "Invoice Alpha");
    assert_eq!(filtered[1].text, "ALPHA roadmap");
}

#[test]
fn linux_history_search_empty_query_returns_all_rows() {
    let history = vec![
        LinuxHistoryItem::new("First"),
        LinuxHistoryItem::new("Second"),
    ];

    assert_eq!(filter_history_for_search(&history, "  "), history);
}

#[test]
fn first_char_reads_shortcut_argument() {
    assert_eq!(first_char("7"), Some('7'));
    assert_eq!(first_char(""), None);
}

#[test]
fn visible_shortcut_for_index_stops_after_nine_items() {
    assert_eq!(visible_shortcut_for_index(0), Some('1'));
    assert_eq!(visible_shortcut_for_index(8), Some('9'));
    assert_eq!(visible_shortcut_for_index(9), None);
}

#[test]
fn zenity_preferences_command_uses_info_dialog() {
    let command = zenity_info_command("Clippo Preferences", "Capture paused: false");
    assert_eq!(command.program, "zenity");
    assert!(command.args.contains(&"--info".to_string()));
    assert!(command.args.contains(&"Clippo Preferences".to_string()));
}

#[test]
fn notification_summary_includes_app_name() {
    assert_eq!(notification_summary("Test"), "Clippo: Test");
}

#[test]
fn wayland_shortcut_daemon_matches_only_open_history_activation() {
    let expected = "/org/freedesktop/portal/desktop/session/clippo_shortcuts";
    let other_session = "/org/freedesktop/portal/desktop/session/other";

    assert!(activation_matches(expected, expected, "open-history"));
    assert!(!activation_matches(expected, other_session, "open-history"));
    assert!(!activation_matches(expected, expected, "other-shortcut"));
}

#[test]
fn wayland_shortcut_daemon_tokens_are_request_path_elements() {
    let token = portal_token("clippo_bind_shortcuts", 4242, 1_717_171_717_123_456_789);

    assert!(token.starts_with("clippo_bind_shortcuts_"));
    assert!(token
        .chars()
        .all(|character| character.is_ascii_alphanumeric() || character == '_'));
    assert_eq!(token, "clippo_bind_shortcuts_4242_1717171717123456789");
}
