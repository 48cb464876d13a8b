//! The Linux shell's command line: which command a list of arguments asks for.
use crate::text::{chars_of, owned, starts_with, starts_with_text, string_from_chars, text_eq};
use vstd::prelude::*;

verus! {

/// A command of the Linux shell.
#[derive(Debug, Clone, PartialEq, Eq)]
pub enum ShellCommand {
    ShowHistory,
    Status,
    EnableAutostart,
    DisableAutostart,
    InstallX11Shortcut,
    CopyShortcut(char),
    PasteShortcut(char),
    PastePlainShortcut(char),
    DeleteShortcut(char),
    TogglePinShortcut(char),
    DeleteText(String),
    TogglePin(String),
    ClearUnpinned,
    ClearAll,
    PauseCapture,
    IgnoreNextCopy,
    Preferences,
    WaylandShortcutsStatus,
    WaylandShortcutsPlan,
    WaylandShortcutsDaemon,
    NotifySmoke,
    ClipboardSmoke,
    ClipboardWrite(String),
    PasteText(String),
    PastePlainText(String),
}

/// A command as plain values.
pub enum ShellCommandView {
    ShowHistory,
    Status,
    EnableAutostart,
    DisableAutostart,
    InstallX11Shortcut,
    CopyShortcut(char),
    PasteShortcut(char),
    PastePlainShortcut(char),
    DeleteShortcut(char),
    TogglePinShortcut(char),
    DeleteText(Seq<char>),
    TogglePin(Seq<char>),
    ClearUnpinned,
    ClearAll,
    PauseCapture,
    IgnoreNextCopy,
    Preferences,
    WaylandShortcutsStatus,
    WaylandShortcutsPlan,
    WaylandShortcutsDaemon,
    NotifySmoke,
    ClipboardSmoke,
    ClipboardWrite(Seq<char>),
    PasteText(Seq<char>),
    PastePlainText(Seq<char>),
}

impl ShellCommand {
    pub open spec fn view_command(self) -> ShellCommandView {
        match self {
            ShellCommand::ShowHistory => ShellCommandView::ShowHistory,
            ShellCommand::Status => ShellCommandView::Status,
            ShellCommand::EnableAutostart => ShellCommandView::EnableAutostart,
            ShellCommand::DisableAutostart => ShellCommandView::DisableAutostart,
            ShellCommand::InstallX11Shortcut => ShellCommandView::InstallX11Shortcut,
            ShellCommand::CopyShortcut(c) => ShellCommandView::CopyShortcut(c),
            ShellCommand::PasteShortcut(c) => ShellCommandView::PasteShortcut(c),
            ShellCommand::PastePlainShortcut(c) => ShellCommandView::PastePlainShortcut(c),
            ShellCommand::DeleteShortcut(c) => ShellCommandView::DeleteShortcut(c),
            ShellCommand::TogglePinShortcut(c) => ShellCommandView::TogglePinShortcut(c),
            ShellCommand::DeleteText(t) => ShellCommandView::DeleteText(t@),
            ShellCommand::TogglePin(t) => ShellCommandView::TogglePin(t@),
            ShellCommand::ClearUnpinned => ShellCommandView::ClearUnpinned,
            ShellCommand::ClearAll => ShellCommandView::ClearAll,
            ShellCommand::PauseCapture => ShellCommandView::PauseCapture,
            ShellCommand::IgnoreNextCopy => ShellCommandView::IgnoreNextCopy,
            ShellCommand::Preferences => ShellCommandView::Preferences,
            ShellCommand::WaylandShortcutsStatus => ShellCommandView::WaylandShortcutsStatus,
            ShellCommand::WaylandShortcutsPlan => ShellCommandView::WaylandShortcutsPlan,
            ShellCommand::WaylandShortcutsDaemon => ShellCommandView::WaylandShortcutsDaemon,
            ShellCommand::NotifySmoke => ShellCommandView::NotifySmoke,
            ShellCommand::ClipboardSmoke => ShellCommandView::ClipboardSmoke,
            ShellCommand::ClipboardWrite(t) => ShellCommandView::ClipboardWrite(t@),
            ShellCommand::PasteText(t) => ShellCommandView::PasteText(t@),
            ShellCommand::PastePlainText(t) => ShellCommandView::PastePlainText(t@),
        }
    }
}

/// Some argument is exactly the flag.
pub open spec fn has_arg(args: Seq<Seq<char>>, flag: Seq<char>) -> bool {
    exists|i: int| 0 <= i < args.len() && args[i] == flag
}

/// What follows the prefix in the first argument that starts with it.
pub open spec fn after_prefix(args: Seq<Seq<char>>, prefix: Seq<char>) -> Option<Seq<char>>
    decreases args.len(),
{
    if args.len() == 0 {
        None
    } else if starts_with(args[0], prefix) {
        Some(args[0].skip(prefix.len() as int))
    } else {
        after_prefix(args.drop_first(), prefix)
    }
}

/// The first character after the prefix in the first argument that starts with it.
pub open spec fn char_after_prefix(args: Seq<Seq<char>>, prefix: Seq<char>) -> Option<char> {
    match after_prefix(args, prefix) {
        Some(rest) => if rest.len() > 0 {
            Some(rest[0])
        } else {
            None
        },
        None => None,
    }
}

/// The command the arguments ask for. The program name alone opens the history;
/// `--status` wins over everything else; then the first rule that matches decides,
/// and without any, the status is printed.
pub open spec fn command_for(args: Seq<Seq<char>>) -> ShellCommandView {
    if args.len() == 1 {
        ShellCommandView::ShowHistory
    } else if has_arg(args, "--status"@) {
        ShellCommandView::Status
    }
    else if has_arg(args, "--enable-autostart"@) {
        ShellCommandView::EnableAutostart
    }
    else if has_arg(args, "--disable-autostart"@) {
        ShellCommandView::DisableAutostart
    }
    else if has_arg(args, "--install-x11-shortcut"@) {
        ShellCommandView::InstallX11Shortcut
    }
    else if has_arg(args, "--show-history"@) {
        ShellCommandView::ShowHistory
    }
    else if char_after_prefix(args, "--copy-shortcut="@) is Some {
        ShellCommandView::CopyShortcut(char_after_prefix(args, "--copy-shortcut="@).unwrap())
    }
    else if char_after_prefix(args, "--paste-shortcut="@) is Some {
        ShellCommandView::PasteShortcut(char_after_prefix(args, "--paste-shortcut="@).unwrap())
    }
    else if char_after_prefix(args, "--paste-plain-shortcut="@) is Some {
        ShellCommandView::PastePlainShortcut(char_after_prefix(args, "--paste-plain-shortcut="@).unwrap())
    }
    else if char_after_prefix(args, "--delete-shortcut="@) is Some {
        ShellCommandView::DeleteShortcut(char_after_prefix(args, "--delete-shortcut="@).unwrap())
    }
    else if char_after_prefix(args, "--toggle-pin-shortcut="@) is Some {
        ShellCommandView::TogglePinShortcut(char_after_prefix(args, "--toggle-pin-shortcut="@).unwrap())
    }
    else if after_prefix(args, "--delete-text="@) is Some {
        ShellCommandView::DeleteText(after_prefix(args, "--delete-text="@).unwrap())
    }
    else if after_prefix(args, "--toggle-pin="@) is Some {
        ShellCommandView::TogglePin(after_prefix(args, "--toggle-pin="@).unwrap())
    }
    else if has_arg(args, "--clear-unpinned"@) {
        ShellCommandView::ClearUnpinned
    }
    else if has_arg(args, "--clear-all"@) {
        ShellCommandView::ClearAll
    }
    else if has_arg(args, "--pause-capture"@) {
        ShellCommandView::PauseCapture
    }
    else if has_arg(args, "--ignore-next-copy"@) {
        ShellCommandView::IgnoreNextCopy
    }
    else if has_arg(args, "--preferences"@) {
        ShellCommandView::Preferences
    }
    else if has_arg(args, "--wayland-shortcuts-status"@) {
        ShellCommandView::WaylandShortcutsStatus
    }
    else if has_arg(args, "--wayland-shortcuts-plan"@) {
        ShellCommandView::WaylandShortcutsPlan
    }
    else if has_arg(args, "--wayland-shortcuts-daemon"@) {
        ShellCommandView::WaylandShortcutsDaemon
    }
    else if has_arg(args, "--notify-smoke"@) {
        ShellCommandView::NotifySmoke
    }
    else if has_arg(args, "--clipboard-smoke"@) {
        ShellCommandView::ClipboardSmoke
    }
    else if after_prefix(args, "--clipboard-write="@) is Some {
        ShellCommandView::ClipboardWrite(after_prefix(args, "--clipboard-write="@).unwrap())
    }
    else if after_prefix(args, "--paste-text="@) is Some {
        ShellCommandView::PasteText(after_prefix(args, "--paste-text="@).unwrap())
    }
    else if after_prefix(args, "--paste-plain-text="@) is Some {
        ShellCommandView::PastePlainText(after_prefix(args, "--paste-plain-text="@).unwrap())
    }
    else {
        ShellCommandView::Status
    }
}

pub open spec fn arg_texts(args: Seq<String>) -> Seq<Seq<char>> {
    args.map_values(|a: String| a@)
}

/// Whether some argument is exactly the flag.
fn has_flag(args: &[String], flag: &str) -> (r: bool)
    ensures
        r == has_arg(arg_texts(args@), flag@),
{
    let ghost av = arg_texts(args@);
    let mut i: usize = 0;
    while i < args.len()
        invariant
            i <= args@.len(),
            av == arg_texts(args@),
            forall|j: int| 0 <= j < i ==> av[j] != flag@,
        decreases args@.len() - i,
    {
        assert(av[i as int] == args@[i as int]@);
        if text_eq(args[i].as_str(), flag) {
            return true;
        }
        i = i + 1;
    }
    false
}

/// What follows the prefix in the first argument that starts with it.
fn value_after(args: &[String], prefix: &str) -> (r: Option<String>)
    ensures
        match (r, after_prefix(arg_texts(args@), prefix@)) {
            (Some(v), Some(w)) => v@ == w,
            (None, None) => true,
            _ => false,
        },
{
    let ghost av = arg_texts(args@);
    let mut i: usize = 0;
    assert(av.skip(0) =~= av);
    while i < args.len()
        invariant
            i <= args@.len(),
            av == arg_texts(args@),
            after_prefix(av, prefix@) == after_prefix(av.skip(i as int), prefix@),
        decreases args@.len() - i,
    {
        let ghost rest = av.skip(i as int);
        assert(rest[0] == args@[i as int]@);
        assert(rest.drop_first() =~= av.skip(i + 1));
        let arg = args[i].as_str();
        if starts_with_text(arg, prefix) {
            let cs = chars_of(arg);
            let p = prefix.unicode_len();
            let v = string_from_chars(&cs, p, cs.len());
            assert(v@ =~= arg@.skip(prefix@.len() as int));
            return Some(v);
        }
        i = i + 1;
    }
    assert(av.skip(i as int) =~= Seq::<Seq<char>>::empty());
    None
}

/// The first character after the prefix in the first argument that starts with it.
fn char_after(args: &[String], prefix: &str) -> (r: Option<char>)
    ensures
        r == char_after_prefix(arg_texts(args@), prefix@),
{
    match value_after(args, prefix) {
        Some(v) => crate::linux_shell::first_char(v.as_str()),
        None => None,
    }
}

/// The command the arguments ask for (see `command_for`).
pub fn parse_shell_command(args: &[String]) -> (r: ShellCommand)
    ensures
        r.view_command() == command_for(arg_texts(args@)),
{
    if args.len() == 1 {
        return ShellCommand::ShowHistory;
    }
    if has_flag(args, "--status") {
        return ShellCommand::Status;
    }
    if has_flag(args, "--enable-autostart") {
        return ShellCommand::EnableAutostart;
    }
    if has_flag(args, "--disable-autostart") {
        return ShellCommand::DisableAutostart;
    }
    if has_flag(args, "--install-x11-shortcut") {
        return ShellCommand::InstallX11Shortcut;
    }
    if has_flag(args, "--show-history") {
        return ShellCommand::ShowHistory;
    }
    match char_after(args, "--copy-shortcut=") {
        Some(c) => {
            return ShellCommand::CopyShortcut(c);
        },
        None => {},
    }
    match char_after(args, "--paste-shortcut=") {
        Some(c) => {
            return ShellCommand::PasteShortcut(c);
        },
        None => {},
    }
    match char_after(args, "--paste-plain-shortcut=") {
        Some(c) => {
            return ShellCommand::PastePlainShortcut(c);
        },
        None => {},
    }
    match char_after(args, "--delete-shortcut=") {
        Some(c) => {
            return ShellCommand::DeleteShortcut(c);
        },
        None => {},
    }
    match char_after(args, "--toggle-pin-shortcut=") {
        Some(c) => {
            return ShellCommand::TogglePinShortcut(c);
        },
        None => {},
    }
    match value_after(args, "--delete-text=") {
        Some(t) => {
            return ShellCommand::DeleteText(t);
        },
        None => {},
    }
    match value_after(args, "--toggle-pin=") {
        Some(t) => {
            return ShellCommand::TogglePin(t);
        },
        None => {},
    }
    if has_flag(args, "--clear-unpinned") {
        return ShellCommand::ClearUnpinned;
    }
    if has_flag(args, "--clear-all") {
        return ShellCommand::ClearAll;
    }
    if has_flag(args, "--pause-capture") {
        return ShellCommand::PauseCapture;
    }
    if has_flag(args, "--ignore-next-copy") {
        return ShellCommand::IgnoreNextCopy;
    }
    if has_flag(args, "--preferences") {
        return ShellCommand::Preferences;
    }
    if has_flag(args, "--wayland-shortcuts-status") {
        return ShellCommand::WaylandShortcutsStatus;
    }
    if has_flag(args, "--wayland-shortcuts-plan") {
        return ShellCommand::WaylandShortcutsPlan;
    }
    if has_flag(args, "--wayland-shortcuts-daemon") {
        return ShellCommand::WaylandShortcutsDaemon;
    }
    if has_flag(args, "--notify-smoke") {
        return ShellCommand::NotifySmoke;
    }
    if has_flag(args, "--clipboard-smoke") {
        return ShellCommand::ClipboardSmoke;
    }
    match value_after(args, "--clipboard-write=") {
        Some(t) => {
            return ShellCommand::ClipboardWrite(t);
        },
        None => {},
    }
    match value_after(args, "--paste-text=") {
        Some(t) => {
            return ShellCommand::PasteText(t);
        },
        None => {},
    }
    match value_after(args, "--paste-plain-text=") {
        Some(t) => {
            return ShellCommand::PastePlainText(t);
        },
        None => {},
    }
    ShellCommand::Status
}

} // verus!
