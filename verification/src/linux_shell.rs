//! The Linux desktop shell: which tools serve a session, the command lines it runs,
//! and what it tells the user about the session's limits.
use crate::text::{
    contains, contains_text, owned, push_char, push_str, text_eq, to_lowercase, unicode_lowercase,
};
use vstd::prelude::*;

verus! {

#[derive(Debug, Clone, Copy, PartialEq, Eq, Structural)]
pub enum SessionKind {
    X11,
    Wayland,
    Unknown,
}

impl SessionKind {
    /// The session named by `XDG_SESSION_TYPE`, matched case-insensitively.
    pub fn from_session_type(value: &str) -> (r: Self)
        ensures
            r == if unicode_lowercase(value@) == "x11"@ {
                SessionKind::X11
            } else if unicode_lowercase(value@) == "wayland"@ {
                SessionKind::Wayland
            } else {
                SessionKind::Unknown
            },
    {
        let lowered = to_lowercase(value);
        if text_eq(lowered.as_str(), "x11") {
            SessionKind::X11
        } else if text_eq(lowered.as_str(), "wayland") {
            SessionKind::Wayland
        } else {
            SessionKind::Unknown
        }
    }

    /// What the user can do about global shortcuts in this session.
    pub fn shortcut_fallback_message(self) -> (r: &'static str)
        ensures
            r@ == match self {
                SessionKind::X11 => "Global shortcuts use the X11 backend when available."@,
                SessionKind::Wayland => "Wayland global shortcuts depend on compositor or portal support. If blocked, configure a desktop shortcut that runs `clippo-linux --show-history`."@,
                SessionKind::Unknown => "Global shortcut support depends on the active desktop session. If blocked, configure a desktop shortcut that runs `clippo-linux --show-history`."@,
            },
    {
        match self {
            SessionKind::X11 => "Global shortcuts use the X11 backend when available.",
            SessionKind::Wayland => "Wayland global shortcuts depend on compositor or portal support. If blocked, configure a desktop shortcut that runs `clippo-linux --show-history`.",
            SessionKind::Unknown => "Global shortcut support depends on the active desktop session. If blocked, configure a desktop shortcut that runs `clippo-linux --show-history`.",
        }
    }

    /// What the user is told about clipboard monitoring and paste in this session.
    pub fn clipboard_fallback_messages(self) -> (r: Vec<&'static str>)
        ensures
            r@.map_values(|m: &'static str| m@) == match self {
                SessionKind::X11 => seq![
                    "Clipboard monitoring uses the X11 backend when available."@,
                    "Automatic paste uses the X11 input backend when available."@,
                ],
                SessionKind::Wayland => seq![
                    "Wayland clipboard monitoring depends on compositor or portal support. If blocked, Clippo should keep manual copy/paste available and show a limitation message."@,
                    "Wayland paste automation depends on compositor policy. If blocked, Clippo should copy the selected item and ask the user to paste manually."@,
                ],
                SessionKind::Unknown => seq![
                    "Clipboard monitoring depends on the active desktop session."@,
                    "Paste automation depends on the active desktop session and may fall back to manual paste."@,
                ],
            },
    {
        let mut r: Vec<&'static str> = Vec::new();
        match self {
            SessionKind::X11 => {
                r.push("Clipboard monitoring uses the X11 backend when available.");
                r.push("Automatic paste uses the X11 input backend when available.");
            },
            SessionKind::Wayland => {
                r.push(
                    "Wayland clipboard monitoring depends on compositor or portal support. If blocked, Clippo should keep manual copy/paste available and show a limitation message.",
                );
                r.push(
                    "Wayland paste automation depends on compositor policy. If blocked, Clippo should copy the selected item and ask the user to paste manually.",
                );
            },
            SessionKind::Unknown => {
                r.push("Clipboard monitoring depends on the active desktop session.");
                r.push(
                    "Paste automation depends on the active desktop session and may fall back to manual paste.",
                );
            },
        }
        proof {
            assert(r@.map_values(|m: &'static str| m@) =~= match self {
                SessionKind::X11 => seq![
                    "Clipboard monitoring uses the X11 backend when available."@,
                    "Automatic paste uses the X11 input backend when available."@,
                ],
                SessionKind::Wayland => seq![
                    "Wayland clipboard monitoring depends on compositor or portal support. If blocked, Clippo should keep manual copy/paste available and show a limitation message."@,
                    "Wayland paste automation depends on compositor policy. If blocked, Clippo should copy the selected item and ask the user to paste manually."@,
                ],
                SessionKind::Unknown => seq![
                    "Clipboard monitoring depends on the active desktop session."@,
                    "Paste automation depends on the active desktop session and may fall back to manual paste."@,
                ],
            });
        }
        r
    }
}

#[derive(Debug, Clone, Copy, PartialEq, Eq, Structural)]
pub enum DesktopEnvironment {
    Gnome,
    Kde,
    Xfce,
    Unknown,
}

/// The desktop named in a lower-cased description of the session.
pub open spec fn desktop_in(value: Seq<char>) -> DesktopEnvironment {
    if contains(value, "gnome"@) {
        DesktopEnvironment::Gnome
    } else if contains(value, "kde"@) || contains(value, "plasma"@) {
        DesktopEnvironment::Kde
    } else if contains(value, "xfce"@) {
        DesktopEnvironment::Xfce
    } else {
        DesktopEnvironment::Unknown
    }
}

pub open spec fn or_empty(o: Option<&str>) -> Seq<char> {
    match o {
        Some(s) => s@,
        None => Seq::empty(),
    }
}

impl DesktopEnvironment {
    /// The desktop named by `XDG_CURRENT_DESKTOP` and `DESKTOP_SESSION`, matched
    /// case-insensitively.
    pub fn from_env_values(current_desktop: Option<&str>, desktop_session: Option<&str>) -> (r:
        Self)
        ensures
            r == desktop_in(
                unicode_lowercase(or_empty(current_desktop) + " "@ + or_empty(desktop_session)),
            ),
    {
        let mut value = String::new();
        match current_desktop {
            Some(s) => push_str(&mut value, s),
            None => {},
        }
        push_str(&mut value, " ");
        match desktop_session {
            Some(s) => push_str(&mut value, s),
            None => {},
        }
        assert(value@ =~= or_empty(current_desktop) + " "@ + or_empty(desktop_session));
        let lowered = to_lowercase(value.as_str());
        Self::from_lowercase(lowered.as_str())
    }

    /// The desktop named in an already lower-cased description.
    pub fn from_lowercase(value: &str) -> (r: Self)
        ensures
            r == desktop_in(value@),
    {
        if contains_text(value, "gnome") {
            DesktopEnvironment::Gnome
        } else if contains_text(value, "kde") || contains_text(value, "plasma") {
            DesktopEnvironment::Kde
        } else if contains_text(value, "xfce") {
            DesktopEnvironment::Xfce
        } else {
            DesktopEnvironment::Unknown
        }
    }

    pub fn name(self) -> (r: &'static str)
        ensures
            r@ == match self {
                DesktopEnvironment::Gnome => "GNOME"@,
                DesktopEnvironment::Kde => "KDE Plasma"@,
                DesktopEnvironment::Xfce => "XFCE"@,
                DesktopEnvironment::Unknown => "unknown desktop"@,
            },
    {
        match self {
            DesktopEnvironment::Gnome => "GNOME",
            DesktopEnvironment::Kde => "KDE Plasma",
            DesktopEnvironment::Xfce => "XFCE",
            DesktopEnvironment::Unknown => "unknown desktop",
        }
    }

    /// How the desktop's tray or menu icon is offered.
    pub fn tray_strategy(self) -> (r: &'static str)
        ensures
            r@ == match self {
                DesktopEnvironment::Gnome => "Use desktop actions by default; status notifier may require an extension."@,
                DesktopEnvironment::Kde => "Use StatusNotifierItem when the native tray shell is implemented."@,
                DesktopEnvironment::Xfce => "Use StatusNotifierItem or legacy tray support when available."@,
                DesktopEnvironment::Unknown => "Expose desktop actions and document tray support as best effort."@,
            },
    {
        match self {
            DesktopEnvironment::Gnome => "Use desktop actions by default; status notifier may require an extension.",
            DesktopEnvironment::Kde => "Use StatusNotifierItem when the native tray shell is implemented.",
            DesktopEnvironment::Xfce => "Use StatusNotifierItem or legacy tray support when available.",
            DesktopEnvironment::Unknown => "Expose desktop actions and document tray support as best effort.",
        }
    }
}

/// A tool invocation with fixed arguments.
#[derive(Debug, Clone, PartialEq, Eq)]
pub struct ClipboardCommand {
    pub program: &'static str,
    pub args: Vec<&'static str>,
}

/// A tool invocation with fixed arguments.
#[derive(Debug, Clone, PartialEq, Eq)]
pub struct PasteCommand {
    pub program: &'static str,
    pub args: Vec<&'static str>,
}

pub open spec fn static_texts(v: Seq<&'static str>) -> Seq<Seq<char>> {
    v.map_values(|a: &'static str| a@)
}

/// The arguments as a vector.
fn static_args(args: &[&'static str]) -> (r: Vec<&'static str>)
    ensures
        r@ == args@,
{
    let mut v: Vec<&'static str> = Vec::new();
    let mut i: usize = 0;
    while i < args.len()
        invariant
            i <= args@.len(),
            v@ == args@.take(i as int),
        decreases args@.len() - i,
    {
        v.push(args[i]);
        i = i + 1;
        assert(v@ =~= args@.take(i as int));
    }
    assert(args@.take(args@.len() as int) =~= args@);
    v
}

impl ClipboardCommand {
    pub fn new(program: &'static str, args: &[&'static str]) -> (r: Self)
        ensures
            r.program == program,
            r.args@ == args@,
    {
        ClipboardCommand { program, args: static_args(args) }
    }
}

impl PasteCommand {
    pub fn new(program: &'static str, args: &[&'static str]) -> (r: Self)
        ensures
            r.program == program,
            r.args@ == args@,
    {
        PasteCommand { program, args: static_args(args) }
    }
}

#[derive(Debug, Clone, Copy, PartialEq, Eq, Structural)]
pub enum LinuxClipboardBackend {
    X11,
    Wayland,
}

impl LinuxClipboardBackend {
    /// `xclip` on X11, `wl-clipboard` on Wayland, none otherwise.
    pub fn for_session(session: SessionKind) -> (r: Option<Self>)
        ensures
            r == match session {
                SessionKind::X11 => Some(LinuxClipboardBackend::X11),
                SessionKind::Wayland => Some(LinuxClipboardBackend::Wayland),
                SessionKind::Unknown => None::<LinuxClipboardBackend>,
            },
    {
        match session {
            SessionKind::X11 => Some(LinuxClipboardBackend::X11),
            SessionKind::Wayland => Some(LinuxClipboardBackend::Wayland),
            SessionKind::Unknown => None,
        }
    }

    pub fn name(self) -> (r: &'static str)
        ensures
            r@ == match self {
                LinuxClipboardBackend::X11 => "xclip"@,
                LinuxClipboardBackend::Wayland => "wl-clipboard"@,
            },
    {
        match self {
            LinuxClipboardBackend::X11 => "xclip",
            LinuxClipboardBackend::Wayland => "wl-clipboard",
        }
    }

    /// The command that prints the clipboard's plain text.
    pub fn read_command(self) -> (r: ClipboardCommand)
        ensures
            (r.program@, static_texts(r.args@)) == match self {
                LinuxClipboardBackend::X11 => (
                    "xclip"@,
                    seq![
                        "-selection"@,
                        "clipboard"@,
                        "-out"@,
                        "-target"@,
                        "text/plain;charset=utf-8"@,
                    ],
                ),
                LinuxClipboardBackend::Wayland => (
                    "wl-paste"@,
                    seq!["--no-newline"@, "--type"@, "text/plain"@],
                ),
            },
    {
        let r = match self {
            LinuxClipboardBackend::X11 => ClipboardCommand::new(
                "xclip",
                &["-selection", "clipboard", "-out", "-target", "text/plain;charset=utf-8"],
            ),
            LinuxClipboardBackend::Wayland => ClipboardCommand::new(
                "wl-paste",
                &["--no-newline", "--type", "text/plain"],
            ),
        };
        assert(static_texts(r.args@) =~= match self {
            LinuxClipboardBackend::X11 => seq![
                "-selection"@,
                "clipboard"@,
                "-out"@,
                "-target"@,
                "text/plain;charset=utf-8"@,
            ],
            LinuxClipboardBackend::Wayland => seq!["--no-newline"@, "--type"@, "text/plain"@],
        });
        r
    }

    /// The command that puts plain text from its input on the clipboard.
    pub fn write_command(self) -> (r: ClipboardCommand)
        ensures
            (r.program@, static_texts(r.args@)) == match self {
                LinuxClipboardBackend::X11 => (
                    "xclip"@,
                    seq![
                        "-selection"@,
                        "clipboard"@,
                        "-in"@,
                        "-target"@,
                        "text/plain;charset=utf-8"@,
                    ],
                ),
                LinuxClipboardBackend::Wayland => ("wl-copy"@, seq!["--type"@, "text/plain"@]),
            },
    {
        let r = match self {
            LinuxClipboardBackend::X11 => ClipboardCommand::new(
                "xclip",
                &["-selection", "clipboard", "-in", "-target", "text/plain;charset=utf-8"],
            ),
            LinuxClipboardBackend::Wayland => ClipboardCommand::new(
                "wl-copy",
                &["--type", "text/plain"],
            ),
        };
        assert(static_texts(r.args@) =~= match self {
            LinuxClipboardBackend::X11 => seq![
                "-selection"@,
                "clipboard"@,
                "-in"@,
                "-target"@,
                "text/plain;charset=utf-8"@,
            ],
            LinuxClipboardBackend::Wayland => seq!["--type"@, "text/plain"@],
        });
        r
    }
}

#[derive(Debug, Clone, Copy, PartialEq, Eq, Structural)]
pub enum LinuxPasteBackend {
    X11,
}

impl LinuxPasteBackend {
    /// Paste keystrokes can be sent on X11 only.
    pub fn for_session(session: SessionKind) -> (r: Option<Self>)
        ensures
            r == match session {
                SessionKind::X11 => Some(LinuxPasteBackend::X11),
                _ => None::<LinuxPasteBackend>,
            },
    {
        match session {
            SessionKind::X11 => Some(LinuxPasteBackend::X11),
            SessionKind::Wayland | SessionKind::Unknown => None,
        }
    }

    pub fn name(self) -> (r: &'static str)
        ensures
            r@ == "xdotool"@,
    {
        match self {
            LinuxPasteBackend::X11 => "xdotool",
        }
    }

    /// The keystroke command: Ctrl+Shift+V for plain text, Ctrl+V otherwise.
    pub fn paste_command(self, plain_text: bool) -> (r: PasteCommand)
        ensures
            r.program@ == "xdotool"@,
            static_texts(r.args@) == seq![
                "key"@,
                "--clearmodifiers"@,
                if plain_text {
                    "ctrl+shift+v"@
                } else {
                    "ctrl+v"@
                },
            ],
    {
        let r = if plain_text {
            PasteCommand::new("xdotool", &["key", "--clearmodifiers", "ctrl+shift+v"])
        } else {
            PasteCommand::new("xdotool", &["key", "--clearmodifiers", "ctrl+v"])
        };
        assert(static_texts(r.args@) =~= seq![
            "key"@,
            "--clearmodifiers"@,
            if plain_text {
                "ctrl+shift+v"@
            } else {
                "ctrl+v"@
            },
        ]);
        r
    }
}

/// `Clippo: ` before the title.
pub fn notification_summary(title: &str) -> (r: String)
    ensures
        r@ == "Clippo: "@ + title@,
{
    let mut s = owned("Clippo: ");
    push_str(&mut s, title);
    s
}

/// The first character of an argument, if any.
pub fn first_char(value: &str) -> (r: Option<char>)
    ensures
        r == if value@.len() > 0 {
            Some(value@[0])
        } else {
            None::<char>
        },
{
    let cs = crate::text::chars_of(value);
    if cs.len() > 0 {
        Some(cs[0])
    } else {
        None
    }
}

/// Started with no arguments besides its own name, the shell opens the history.
pub fn should_open_history_by_default(args: &[String]) -> (r: bool)
    ensures
        r == (args@.len() == 1),
{
    args.len() == 1
}

/// The autostart entry that runs the executable at login.
pub fn desktop_entry(executable_path: &str) -> (r: String)
    ensures
        r@ == "[Desktop Entry]\nType=Application\nName=Clippo\nComment=Native clipboard manager\nExec="@
            + executable_path@ + "\nTerminal=false\nX-GNOME-Autostart-enabled=true\n"@,
{
    let mut s = owned(
        "[Desktop Entry]\nType=Application\nName=Clippo\nComment=Native clipboard manager\nExec=",
    );
    push_str(&mut s, executable_path);
    push_str(&mut s, "\nTerminal=false\nX-GNOME-Autostart-enabled=true\n");
    s
}


/// Remembers the last clipboard text seen, to report only changes.
#[derive(Debug)]
pub struct ClipboardMonitor {
    last_text: Option<String>,
}

pub open spec fn opt_text_view(o: Option<String>) -> Option<Seq<char>> {
    match o {
        Some(s) => Some(s@),
        None => None,
    }
}

impl Default for ClipboardMonitor {
    fn default() -> (r: Self)
        ensures
            r.last_view() is None,
    {
        ClipboardMonitor { last_text: None }
    }
}

impl ClipboardMonitor {
    pub closed spec fn last_view(&self) -> Option<Seq<char>> {
        opt_text_view(self.last_text)
    }

    /// The text just read, when there is one and it differs from the last one seen;
    /// it is then remembered.
    pub fn poll_changed(&mut self, current_text: Option<String>) -> (r: Option<String>)
        ensures
            ({
                let changed = current_text is Some && opt_text_view(current_text) != old(
                    self,
                ).last_view();
                &&& changed ==> opt_text_view(r) == opt_text_view(current_text)
                    && final(self).last_view() == opt_text_view(current_text)
                &&& !changed ==> r is None && final(self).last_view() == old(self).last_view()
            }),
    {
        let changed = match (&current_text, &self.last_text) {
            (Some(current), Some(last)) => !text_eq(current.as_str(), last.as_str()),
            (Some(_), None) => true,
            (None, _) => false,
        };
        if changed {
            self.last_text = match &current_text {
                Some(t) => Some(owned(t.as_str())),
                None => None,
            };
            current_text
        } else {
            None
        }
    }
}

} // verus!
