//! The xdg-desktop-portal GlobalShortcuts interface: the `gdbus` command lines that
//! drive it and how its introspection text is read.
use crate::text::{
    chars_of, decimal, digit_char, push_decimal, contains, contains_text, is_white_space, is_whitespace, join, join_strings, owned,
    parse_u32, parse_u32_text, push_char, push_str, split_chars, split_lines, split_on,
    starts_with, starts_with_text, string_from_chars, text_eq, trim, trim_bounds, trim_start,
    lines,
};
use vstd::prelude::*;

verus! {

#[derive(Debug, Clone, PartialEq, Eq)]
pub enum PortalAvailability {
    Available { version: Option<u32> },
    Unavailable,
}

/// A shortcut that the shell asks the portal to bind.
#[derive(Debug, Clone, Copy, PartialEq, Eq)]
pub struct WaylandShortcutBinding {
    pub id: &'static str,
    pub description: &'static str,
    pub preferred_trigger: &'static str,
    pub command: &'static str,
}

/// A `gdbus` invocation.
#[derive(Debug, Clone, PartialEq, Eq)]
pub struct PortalCommand {
    pub program: &'static str,
    pub args: Vec<String>,
}

pub open spec fn string_views(v: Seq<String>) -> Seq<Seq<char>> {
    v.map_values(|a: String| a@)
}

pub open spec fn text_views(v: Seq<&str>) -> Seq<Seq<char>> {
    v.map_values(|a: &str| a@)
}

/// One character escaped for a single-quoted GVariant string.
pub open spec fn gvariant_escaped_char(c: char) -> Seq<char> {
    if c == '\\' {
        seq!['\\', '\\']
    } else if c == '\'' {
        seq!['\\', '\'']
    } else {
        seq![c]
    }
}

/// The text with backslashes and single quotes escaped by a backslash.
pub open spec fn gvariant_escaped(s: Seq<char>) -> Seq<char>
    decreases s.len(),
{
    if s.len() == 0 {
        Seq::empty()
    } else {
        gvariant_escaped(s.drop_last()) + gvariant_escaped_char(s.last())
    }
}

/// A character that needs no quoting in a shell word.
pub open spec fn shell_safe_char(c: char) -> bool {
    ||| ('a' <= c && c <= 'z')
    ||| ('A' <= c && c <= 'Z')
    ||| ('0' <= c && c <= '9')
    ||| c == '-' || c == '_' || c == '.' || c == '/' || c == ':' || c == '=' || c == '+'
}

/// Single quotes inside a single-quoted shell word, closed, escaped and reopened.
pub open spec fn shell_quote_body(s: Seq<char>) -> Seq<char>
    decreases s.len(),
{
    if s.len() == 0 {
        Seq::empty()
    } else {
        shell_quote_body(s.drop_last()) + if s.last() == '\'' {
            "'\\''"@
        } else {
            seq![s.last()]
        }
    }
}

/// The text as one shell word.
pub open spec fn shell_quoted(s: Seq<char>) -> Seq<char> {
    if forall|i: int| 0 <= i < s.len() ==> shell_safe_char(#[trigger] s[i]) {
        s
    } else {
        seq!['\''] + shell_quote_body(s) + seq!['\'']
    }
}

/// The portal service and its object.
pub open spec fn portal_target() -> Seq<Seq<char>> {
    seq![
        "--session"@,
        "--dest"@,
        "org.freedesktop.portal.Desktop"@,
        "--object-path"@,
        "/org/freedesktop/portal/desktop"@,
    ]
}

/// `gdbus call` of a GlobalShortcuts method.
pub open spec fn portal_call(method: Seq<char>) -> Seq<Seq<char>> {
    seq!["call"@] + portal_target() + seq!["--method"@, method]
}

/// The options dictionary naming a request's handle token.
pub open spec fn handle_token_options(handle_token: Seq<char>) -> Seq<char> {
    "{'handle_token': <'"@ + gvariant_escaped(handle_token) + "'>}"@
}

/// One shortcut as a GVariant `(sa{sv})` entry.
pub open spec fn shortcut_gvariant(b: WaylandShortcutBinding) -> Seq<char> {
    "('"@ + gvariant_escaped(b.id@) + "', {'description': <'"@ + gvariant_escaped(
        b.description@,
    ) + "'>, 'preferred_trigger': <'"@ + gvariant_escaped(b.preferred_trigger@) + "'>})"@
}

/// The shortcuts as a GVariant array.
pub open spec fn shortcuts_gvariant(shortcuts: Seq<WaylandShortcutBinding>) -> Seq<char> {
    "["@ + join(shortcuts.map_values(|b: WaylandShortcutBinding| shortcut_gvariant(b)), ", "@)
        + "]"@
}

/// A text without the given character repeated at its end (`trim_end_matches`).
pub open spec fn strip_trailing(s: Seq<char>, c: char) -> Seq<char>
    decreases s.len(),
{
    if s.len() > 0 && s.last() == c {
        strip_trailing(s.drop_last(), c)
    } else {
        s
    }
}

/// The number after the first `=` of a line, without white space and trailing `;`.
pub open spec fn version_value(line: Seq<char>) -> Option<u32> {
    let parts = split_on(line, '=');
    if parts.len() >= 2 {
        parse_u32(strip_trailing(trim(parts[1]), ';'))
    } else {
        None
    }
}

/// Whether a line of the GlobalShortcuts interface declares its version.
pub open spec fn is_version_line(line: Seq<char>) -> bool {
    contains(trim(line), "property uint32 version"@) || contains(trim(line), "readonly u version"@)
}

/// Whether the lines after this one belong to the GlobalShortcuts interface.
pub open spec fn inside_after(line: Seq<char>, inside: bool) -> bool {
    if contains(line, "interface org.freedesktop.portal.GlobalShortcuts"@) {
        true
    } else if inside && starts_with(trim_start(line), "interface "@) {
        false
    } else {
        inside
    }
}

/// The version declared in the GlobalShortcuts interface among the lines: the first
/// version line inside it decides.
pub open spec fn version_scan(ls: Seq<Seq<char>>, inside: bool) -> Option<u32>
    decreases ls.len(),
{
    if ls.len() == 0 {
        None
    } else {
        let now_inside = inside_after(ls[0], inside);
        if now_inside && is_version_line(ls[0]) {
            version_value(ls[0])
        } else {
            version_scan(ls.drop_first(), now_inside)
        }
    }
}

/// What introspecting the portal object tells of the GlobalShortcuts interface.
pub open spec fn portal_availability(text: Seq<char>) -> PortalAvailability {
    if !contains(text, "org.freedesktop.portal.GlobalShortcuts"@) {
        PortalAvailability::Unavailable
    } else {
        PortalAvailability::Available { version: version_scan(lines(text), false) }
    }
}

/// The text with backslashes and single quotes escaped.
pub fn escape_gvariant_string(value: &str) -> (r: String)
    ensures
        r@ == gvariant_escaped(value@),
{
    let cs = chars_of(value);
    let mut out = String::new();
    let mut i: usize = 0;
    while i < cs.len()
        invariant
            i <= cs.len(),
            cs@ == value@,
            out@ == gvariant_escaped(cs@.take(i as int)),
        decreases cs.len() - i,
    {
        let c = cs[i];
        assert(cs@.take(i + 1).drop_last() =~= cs@.take(i as int));
        if c == '\\' {
            push_char(&mut out, '\\');
            push_char(&mut out, '\\');
        } else if c == '\'' {
            push_char(&mut out, '\\');
            push_char(&mut out, '\'');
        } else {
            push_char(&mut out, c);
        }
        i = i + 1;
        assert(out@ =~= gvariant_escaped(cs@.take(i as int)));
    }
    assert(cs@.take(cs.len() as int) =~= cs@);
    out
}

/// The text as one shell word: unchanged when every character is safe, else single
/// quoted.
pub fn shell_quote(value: &str) -> (r: String)
    ensures
        r@ == shell_quoted(value@),
{
    let cs = chars_of(value);
    let mut safe = true;
    let mut i: usize = 0;
    while i < cs.len()
        invariant
            i <= cs.len(),
            safe == forall|k: int| 0 <= k < i ==> shell_safe_char(#[trigger] cs@[k]),
        decreases cs.len() - i,
    {
        let c = cs[i];
        let ok = ('a' <= c && c <= 'z') || ('A' <= c && c <= 'Z') || ('0' <= c && c <= '9') || c
            == '-' || c == '_' || c == '.' || c == '/' || c == ':' || c == '=' || c == '+';
        if !ok {
            safe = false;
        }
        i = i + 1;
    }
    if safe {
        return owned(value);
    }
    let mut out = String::new();
    push_char(&mut out, '\'');
    let mut j: usize = 0;
    while j < cs.len()
        invariant
            j <= cs.len(),
            cs@ == value@,
            out@ == seq!['\''] + shell_quote_body(cs@.take(j as int)),
        decreases cs.len() - j,
    {
        let c = cs[j];
        assert(cs@.take(j + 1).drop_last() =~= cs@.take(j as int));
        if c == '\'' {
            push_str(&mut out, "'\\''");
        } else {
            push_char(&mut out, c);
        }
        j = j + 1;
        assert(out@ =~= seq!['\''] + shell_quote_body(cs@.take(j as int)));
    }
    assert(cs@.take(cs.len() as int) =~= cs@);
    push_char(&mut out, '\'');
    out
}

impl PortalCommand {
    pub fn new(program: &'static str, args: &[&str]) -> (r: Self)
        ensures
            r.program == program,
            string_views(r.args@) == text_views(args@),
    {
        let mut v: Vec<String> = Vec::new();
        let mut i: usize = 0;
        while i < args.len()
            invariant
                i <= args@.len(),
                string_views(v@) == text_views(args@.take(i as int)),
            decreases args@.len() - i,
        {
            let ghost prev = string_views(v@);
            let a = owned(args[i]);
            v.push(a);
            assert(string_views(v@) =~= prev.push(args@[i as int]@));
            assert(text_views(args@.take(i + 1)) =~= text_views(args@.take(i as int)).push(
                args@[i as int]@,
            ));
            i = i + 1;
        }
        assert(args@.take(args@.len() as int) =~= args@);
        PortalCommand { program, args: v }
    }

    /// The command as a shell line: the program, then each argument as a shell word.
    pub fn shell_line(&self) -> (r: String)
        ensures
            r@ == join(
                seq![self.program@] + string_views(self.args@).map_values(
                    |a: Seq<char>| shell_quoted(a),
                ),
                " "@,
            ),
    {
        let mut words: Vec<String> = Vec::new();
        words.push(owned(self.program));
        let mut i: usize = 0;
        while i < self.args.len()
            invariant
                i <= self.args.len(),
                string_views(words@) == seq![self.program@] + string_views(self.args@).take(
                    i as int,
                ).map_values(|a: Seq<char>| shell_quoted(a)),
            decreases self.args.len() - i,
        {
            let ghost prev = string_views(words@);
            let q = shell_quote(self.args[i].as_str());
            words.push(q);
            assert(string_views(words@) =~= prev.push(shell_quoted(self.args@[i as int]@)));
            assert(string_views(self.args@).take(i + 1).map_values(|a: Seq<char>| shell_quoted(a))
                =~= string_views(self.args@).take(i as int).map_values(
                |a: Seq<char>| shell_quoted(a),
            ).push(shell_quoted(self.args@[i as int]@)));
            i = i + 1;
        }
        assert(string_views(self.args@).take(self.args.len() as int) =~= string_views(self.args@));
        join_strings(&words, " ")
    }
}

/// The portal's command lines and introspection.
pub struct WaylandGlobalShortcutsPortal;

impl WaylandGlobalShortcutsPortal {
    /// `gdbus introspect` of the portal object.
    pub fn probe_command() -> (r: PortalCommand)
        ensures
            r.program@ == "gdbus"@,
            string_views(r.args@) == seq!["introspect"@] + portal_target(),
    {
        let r = PortalCommand::new(
            "gdbus",
            &[
                "introspect",
                "--session",
                "--dest",
                "org.freedesktop.portal.Desktop",
                "--object-path",
                "/org/freedesktop/portal/desktop",
            ],
        );
        assert(string_views(r.args@) =~= seq!["introspect"@] + portal_target());
        r
    }

    /// `gdbus monitor` of the portal object.
    pub fn monitor_command() -> (r: PortalCommand)
        ensures
            r.program@ == "gdbus"@,
            string_views(r.args@) == seq!["monitor"@] + portal_target(),
    {
        let r = PortalCommand::new(
            "gdbus",
            &[
                "monitor",
                "--session",
                "--dest",
                "org.freedesktop.portal.Desktop",
                "--object-path",
                "/org/freedesktop/portal/desktop",
            ],
        );
        assert(string_views(r.args@) =~= seq!["monitor"@] + portal_target());
        r
    }

    /// Creates a shortcuts session with the given request and session tokens.
    pub fn create_session_command(handle_token: &str, session_handle_token: &str) -> (r:
        PortalCommand)
        ensures
            r.program@ == "gdbus"@,
            string_views(r.args@) == portal_call(
                "org.freedesktop.portal.GlobalShortcuts.CreateSession"@,
            ) + seq![
                "{'handle_token': <'"@ + gvariant_escaped(handle_token@)
                    + "'>, 'session_handle_token': <'"@ + gvariant_escaped(session_handle_token@)
                    + "'>}"@,
            ],
    {
        let mut options = owned("{'handle_token': <'");
        push_str(&mut options, escape_gvariant_string(handle_token).as_str());
        push_str(&mut options, "'>, 'session_handle_token': <'");
        push_str(&mut options, escape_gvariant_string(session_handle_token).as_str());
        push_str(&mut options, "'>}");
        let r = PortalCommand::new(
            "gdbus",
            &[
                "call",
                "--session",
                "--dest",
                "org.freedesktop.portal.Desktop",
                "--object-path",
                "/org/freedesktop/portal/desktop",
                "--method",
                "org.freedesktop.portal.GlobalShortcuts.CreateSession",
                options.as_str(),
            ],
        );
        assert(string_views(r.args@) =~= portal_call(
            "org.freedesktop.portal.GlobalShortcuts.CreateSession"@,
        ) + seq![options@]);
        r
    }

    /// Binds the shortcuts in a session.
    pub fn bind_shortcuts_command(
        session_handle: &str,
        handle_token: &str,
        shortcuts: &[WaylandShortcutBinding],
    ) -> (r: PortalCommand)
        ensures
            r.program@ == "gdbus"@,
            string_views(r.args@) == portal_call(
                "org.freedesktop.portal.GlobalShortcuts.BindShortcuts"@,
            ) + seq![
                session_handle@,
                shortcuts_gvariant(shortcuts@),
                Seq::<char>::empty(),
                handle_token_options(handle_token@),
            ],
    {
        let mut options = owned("{'handle_token': <'");
        push_str(&mut options, escape_gvariant_string(handle_token).as_str());
        push_str(&mut options, "'>}");
        let array = format_shortcuts_gvariant(shortcuts);
        let r = PortalCommand::new(
            "gdbus",
            &[
                "call",
                "--session",
                "--dest",
                "org.freedesktop.portal.Desktop",
                "--object-path",
                "/org/freedesktop/portal/desktop",
                "--method",
                "org.freedesktop.portal.GlobalShortcuts.BindShortcuts",
                session_handle,
                array.as_str(),
                "",
                options.as_str(),
            ],
        );
        proof {
            reveal_strlit("");
            assert(""@ =~= Seq::<char>::empty());
            assert(string_views(r.args@) =~= portal_call(
                "org.freedesktop.portal.GlobalShortcuts.BindShortcuts"@,
            ) + seq![
                session_handle@,
                shortcuts_gvariant(shortcuts@),
                Seq::<char>::empty(),
                handle_token_options(handle_token@),
            ]);
        }
        r
    }

    /// Lists the shortcuts bound in a session.
    pub fn list_shortcuts_command(session_handle: &str, handle_token: &str) -> (r: PortalCommand)
        ensures
            r.program@ == "gdbus"@,
            string_views(r.args@) == portal_call(
                "org.freedesktop.portal.GlobalShortcuts.ListShortcuts"@,
            ) + seq![session_handle@, handle_token_options(handle_token@)],
    {
        let mut options = owned("{'handle_token': <'");
        push_str(&mut options, escape_gvariant_string(handle_token).as_str());
        push_str(&mut options, "'>}");
        let r = PortalCommand::new(
            "gdbus",
            &[
                "call",
                "--session",
                "--dest",
                "org.freedesktop.portal.Desktop",
                "--object-path",
                "/org/freedesktop/portal/desktop",
                "--method",
                "org.freedesktop.portal.GlobalShortcuts.ListShortcuts",
                session_handle,
                options.as_str(),
            ],
        );
        assert(string_views(r.args@) =~= portal_call(
            "org.freedesktop.portal.GlobalShortcuts.ListShortcuts"@,
        ) + seq![session_handle@, handle_token_options(handle_token@)]);
        r
    }

    /// The shortcut that opens the history.
    pub fn default_shortcuts() -> (r: [WaylandShortcutBinding; 1])
        ensures
            r[0].id@ == "open-history"@,
            r[0].description@ == "Open Clippo history"@,
            r[0].preferred_trigger@ == "Super+Shift+C"@,
            r[0].command@ == "clippo-linux --show-history"@,
    {
        [
            WaylandShortcutBinding {
                id: "open-history",
                description: "Open Clippo history",
                preferred_trigger: "Super+Shift+C",
                command: "clippo-linux --show-history",
            },
        ]
    }

    /// Whether the introspected object offers GlobalShortcuts, and in which version.
    pub fn parse_introspection(text: &str) -> (r: PortalAvailability)
        ensures
            r == portal_availability(text@),
    {
        if !contains_text(text, "org.freedesktop.portal.GlobalShortcuts") {
            return PortalAvailability::Unavailable;
        }
        PortalAvailability::Available { version: parse_global_shortcuts_version(text) }
    }
}

/// The shortcuts as a GVariant array of `(id, {description, preferred_trigger})`.
pub fn format_shortcuts_gvariant(shortcuts: &[WaylandShortcutBinding]) -> (r: String)
    ensures
        r@ == shortcuts_gvariant(shortcuts@),
{
    let mut entries: Vec<String> = Vec::new();
    let mut i: usize = 0;
    while i < shortcuts.len()
        invariant
            i <= shortcuts@.len(),
            string_views(entries@) == shortcuts@.take(i as int).map_values(
                |b: WaylandShortcutBinding| shortcut_gvariant(b),
            ),
        decreases shortcuts@.len() - i,
    {
        let b = shortcuts[i];
        let mut e = owned("('");
        push_str(&mut e, escape_gvariant_string(b.id).as_str());
        push_str(&mut e, "', {'description': <'");
        push_str(&mut e, escape_gvariant_string(b.description).as_str());
        push_str(&mut e, "'>, 'preferred_trigger': <'");
        push_str(&mut e, escape_gvariant_string(b.preferred_trigger).as_str());
        push_str(&mut e, "'>})");
        assert(e@ =~= shortcut_gvariant(b));
        let ghost prev = string_views(entries@);
        entries.push(e);
        assert(string_views(entries@) =~= prev.push(shortcut_gvariant(b)));
        assert(shortcuts@.take(i + 1).map_values(|b: WaylandShortcutBinding| shortcut_gvariant(b))
            =~= shortcuts@.take(i as int).map_values(
            |b: WaylandShortcutBinding| shortcut_gvariant(b),
        ).push(shortcut_gvariant(b)));
        i = i + 1;
    }
    assert(shortcuts@.take(shortcuts@.len() as int) =~= shortcuts@);
    let mut out = owned("[");
    push_str(&mut out, join_strings(&entries, ", ").as_str());
    push_str(&mut out, "]");
    assert(out@ =~= shortcuts_gvariant(shortcuts@));
    out
}

/// The text without leading white space.
fn trim_start_text(s: &str) -> (r: String)
    ensures
        r@ == trim_start(s@),
{
    let cs = chars_of(s);
    let mut i: usize = 0;
    assert(cs@.subrange(0, cs.len() as int) =~= cs@);
    while i < cs.len() && is_whitespace(cs[i])
        invariant
            i <= cs.len(),
            cs@ == s@,
            trim_start(cs@) == trim_start(cs@.subrange(i as int, cs.len() as int)),
        decreases cs.len() - i,
    {
        assert(cs@.subrange(i as int, cs.len() as int).drop_first() =~= cs@.subrange(
            i + 1,
            cs.len() as int,
        ));
        i = i + 1;
    }
    string_from_chars(&cs, i, cs.len())
}

/// The text without the character repeated at its end.
fn strip_trailing_text(s: &Vec<char>, c: char) -> (r: String)
    ensures
        r@ == strip_trailing(s@, c),
{
    let mut j: usize = s.len();
    assert(s@.subrange(0, j as int) =~= s@);
    while j > 0 && s[j - 1] == c
        invariant
            j <= s.len(),
            strip_trailing(s@, c) == strip_trailing(s@.subrange(0, j as int), c),
        decreases j,
    {
        assert(s@.subrange(0, j as int).drop_last() =~= s@.subrange(0, j - 1));
        j = j - 1;
    }
    string_from_chars(s, 0, j)
}

/// The version after the first `=` of a line.
fn parse_version_value(line: &str) -> (r: Option<u32>)
    ensures
        r == version_value(line@),
{
    let cs = chars_of(line);
    let parts = split_chars(&cs, '=');
    assert(parts@.map_values(|p: Vec<char>| p@) == split_on(line@, '='));
    if parts.len() < 2 {
        return None;
    }
    let piece = &parts[1];
    let (a, b) = trim_bounds(piece);
    let trimmed = crate::text::chars_of(string_from_chars(piece, a, b).as_str());
    assert(trimmed@ == trim(parts@[1]@));
    let value = strip_trailing_text(&trimmed, ';');
    parse_u32_text(value.as_str())
}

/// The version that the GlobalShortcuts interface declares in an introspection text.
pub fn parse_global_shortcuts_version(text: &str) -> (r: Option<u32>)
    ensures
        r == version_scan(lines(text@), false),
{
    let ls = split_lines(text);
    let ghost lv = ls@.map_values(|l: String| l@);
    let mut inside = false;
    let mut i: usize = 0;
    assert(lv.skip(0) =~= lv);
    while i < ls.len()
        invariant
            i <= ls.len(),
            lv == ls@.map_values(|l: String| l@),
            lv == lines(text@),
            version_scan(lv, false) == version_scan(lv.skip(i as int), inside),
        decreases ls.len() - i,
    {
        let line = ls[i].as_str();
        assert(lv.skip(i as int)[0] == line@);
        assert(lv.skip(i as int).drop_first() =~= lv.skip(i + 1));
        if contains_text(line, "interface org.freedesktop.portal.GlobalShortcuts") {
            inside = true;
        } else if inside && starts_with_text(trim_start_text(line).as_str(), "interface ") {
            inside = false;
        }
        let trimmed = crate::text::trim_text(line);
        if inside && (contains_text(trimmed.as_str(), "property uint32 version") || contains_text(
            trimmed.as_str(),
            "readonly u version",
        )) {
            return parse_version_value(line);
        }
        i = i + 1;
    }
    None
}

/// Whether a portal `Activated` signal is the open-history shortcut of our session.
pub fn activation_matches(
    expected_session_handle: &str,
    signal_session_handle: &str,
    shortcut_id: &str,
) -> (r: bool)
    ensures
        r == (expected_session_handle@ == signal_session_handle@ && shortcut_id@ == "open-history"@),
{
    text_eq(expected_session_handle, signal_session_handle) && text_eq(shortcut_id, "open-history")
}

/// A character that may stand in a D-Bus object path element.
pub open spec fn path_element_char(c: char) -> bool {
    ('a' <= c <= 'z') || ('A' <= c <= 'Z') || ('0' <= c <= '9') || c == '_'
}

/// The request token for a prefix: the prefix, the process id and a time stamp in
/// nanoseconds, joined by underscores.
pub open spec fn portal_token_text(prefix: Seq<char>, pid: u32, nanos: u128) -> Seq<char> {
    prefix + seq!['_'] + decimal(pid as nat) + seq!['_'] + decimal(nanos as nat)
}

/// The request token for a prefix, process id and time stamp.
pub fn portal_token(prefix: &str, pid: u32, nanos: u128) -> (r: String)
    ensures
        r@ == portal_token_text(prefix@, pid, nanos),
{
    let mut out = owned(prefix);
    push_char(&mut out, '_');
    push_decimal(&mut out, pid as u128);
    push_char(&mut out, '_');
    push_decimal(&mut out, nanos);
    out
}

/// Every character of a decimal is a digit.
proof fn lemma_decimal_digits(n: nat)
    ensures
        forall|i: int| 0 <= i < decimal(n).len() ==> '0' <= #[trigger] decimal(n)[i] <= '9',
    decreases n,
{
    lemma_digit_char_is_digit(n % 10);
    if n >= 10 {
        lemma_decimal_digits(n / 10);
        let d = decimal(n);
        let h = decimal(n / 10);
        assert forall|i: int| 0 <= i < d.len() implies '0' <= #[trigger] d[i] <= '9' by {
            if i < h.len() {
                assert(d[i] == h[i]);
            }
        }
    }
}

/// The digit character of a digit lies between '0' and '9'.
proof fn lemma_digit_char_is_digit(d: nat)
    requires
        d < 10,
    ensures
        '0' <= digit_char(d) <= '9',
{
    let c = digit_char(d);
    assert(c as int == d + 48);
}

/// A token made from a prefix of path-element characters is itself a valid object
/// path element, and starts with the prefix and an underscore.
pub proof fn lemma_portal_token_is_path_element(prefix: Seq<char>, pid: u32, nanos: u128)
    requires
        forall|i: int| 0 <= i < prefix.len() ==> path_element_char(#[trigger] prefix[i]),
    ensures
        forall|i: int|
            0 <= i < portal_token_text(prefix, pid, nanos).len() ==> path_element_char(
                #[trigger] portal_token_text(prefix, pid, nanos)[i],
            ),
        portal_token_text(prefix, pid, nanos).take(prefix.len() as int + 1) == prefix + seq!['_'],
{
    lemma_decimal_digits(pid as nat);
    lemma_decimal_digits(nanos as nat);
    let t = portal_token_text(prefix, pid, nanos);
    let a = decimal(pid as nat);
    let b = decimal(nanos as nat);
    assert forall|i: int| 0 <= i < t.len() implies path_element_char(#[trigger] t[i]) by {
        if i < prefix.len() {
            assert(t[i] == prefix[i]);
        } else if i == prefix.len() {
        } else if i < prefix.len() + 1 + a.len() {
            assert(t[i] == a[i - prefix.len() - 1]);
        } else if i == prefix.len() + 1 + a.len() {
        } else {
            assert(t[i] == b[i - prefix.len() - 2 - a.len()]);
        }
    }
    assert(t.take(prefix.len() as int + 1) =~= prefix + seq!['_']);
}

} // verus!
