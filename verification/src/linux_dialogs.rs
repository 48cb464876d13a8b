//! The Linux shell's dialogs, its X11 key bindings and its command line.
use crate::linux_history::{linux_views, number_key, visible_shortcut_for_index, LinuxHistoryItem, LinuxItemView};
use crate::text::{
    chars_of, digit, join, join_strings, lines, owned, push_char, push_str, split_lines,
    starts_with, starts_with_text, string_from_chars, text_eq, trim, trim_text,
};
use vstd::prelude::*;

verus! {

#[derive(Debug, Clone, Copy, PartialEq, Eq, Structural)]
pub enum HistoryAction {
    Copy,
    Paste,
    PastePlain,
    ShowFullText,
    TogglePin,
    Delete,
}

/// The action a dialog label names.
pub open spec fn action_for_label(label: Seq<char>) -> Option<HistoryAction> {
    if label == "Copy"@ {
        Some(HistoryAction::Copy)
    } else if label == "Paste"@ {
        Some(HistoryAction::Paste)
    } else if label == "Paste Without Formatting"@ {
        Some(HistoryAction::PastePlain)
    } else if label == "Show Full Text"@ {
        Some(HistoryAction::ShowFullText)
    } else if label == "Pin"@ || label == "Unpin"@ {
        Some(HistoryAction::TogglePin)
    } else if label == "Delete"@ {
        Some(HistoryAction::Delete)
    } else {
        None
    }
}

/// The labels offered for an item; the pin action reads "Unpin" for a pinned item.
pub open spec fn action_labels(pinned: bool) -> Seq<Seq<char>> {
    seq![
        "Copy"@,
        "Paste"@,
        "Paste Without Formatting"@,
        "Show Full Text"@,
        if pinned {
            "Unpin"@
        } else {
            "Pin"@
        },
        "Delete"@,
    ]
}

impl HistoryAction {
    pub fn labels(pinned: bool) -> (r: [&'static str; 6])
        ensures
            r@.map_values(|l: &'static str| l@) == action_labels(pinned),
    {
        let r = [
            "Copy",
            "Paste",
            "Paste Without Formatting",
            "Show Full Text",
            if pinned {
                "Unpin"
            } else {
                "Pin"
            },
            "Delete",
        ];
        assert(r@.map_values(|l: &'static str| l@) =~= action_labels(pinned));
        r
    }

    pub fn from_label(label: &str) -> (r: Option<Self>)
        ensures
            r == action_for_label(label@),
    {
        if text_eq(label, "Copy") {
            Some(HistoryAction::Copy)
        } else if text_eq(label, "Paste") {
            Some(HistoryAction::Paste)
        } else if text_eq(label, "Paste Without Formatting") {
            Some(HistoryAction::PastePlain)
        } else if text_eq(label, "Show Full Text") {
            Some(HistoryAction::ShowFullText)
        } else if text_eq(label, "Pin") || text_eq(label, "Unpin") {
            Some(HistoryAction::TogglePin)
        } else if text_eq(label, "Delete") {
            Some(HistoryAction::Delete)
        } else {
            None
        }
    }
}

/// A `zenity` invocation.
#[derive(Debug, Clone, PartialEq, Eq)]
pub struct DialogCommand {
    pub program: &'static str,
    pub args: Vec<String>,
}

pub open spec fn arg_views(v: Seq<String>) -> Seq<Seq<char>> {
    v.map_values(|a: String| a@)
}

fn push_arg(args: &mut Vec<String>, a: &str)
    ensures
        arg_views(final(args)@) == arg_views(old(args)@).push(a@),
{
    args.push(owned(a));
    assert(arg_views(final(args)@) =~= arg_views(old(args)@).push(a@));
}

/// An information dialog showing the text.
pub fn zenity_info_command(title: &str, text: &str) -> (r: DialogCommand)
    ensures
        r.program@ == "zenity"@,
        arg_views(r.args@) == seq![
            "--info"@,
            "--title"@,
            title@,
            "--text"@,
            text@,
            "--width"@,
            "420"@,
        ],
{
    let mut args: Vec<String> = Vec::new();
    push_arg(&mut args, "--info");
    push_arg(&mut args, "--title");
    push_arg(&mut args, title);
    push_arg(&mut args, "--text");
    push_arg(&mut args, text);
    push_arg(&mut args, "--width");
    push_arg(&mut args, "420");
    assert(arg_views(args@) =~= seq![
        "--info"@,
        "--title"@,
        title@,
        "--text"@,
        text@,
        "--width"@,
        "420"@,
    ]);
    DialogCommand { program: "zenity", args }
}

/// An entry dialog for the search query, starting empty.
pub fn zenity_search_command() -> (r: DialogCommand)
    ensures
        r.program@ == "zenity"@,
        arg_views(r.args@) == seq![
            "--entry"@,
            "--title"@,
            "Clippo History"@,
            "--text"@,
            "Search clipboard history"@,
            "--entry-text"@,
            Seq::<char>::empty(),
            "--width"@,
            "420"@,
        ],
{
    let mut args: Vec<String> = Vec::new();
    push_arg(&mut args, "--entry");
    push_arg(&mut args, "--title");
    push_arg(&mut args, "Clippo History");
    push_arg(&mut args, "--text");
    push_arg(&mut args, "Search clipboard history");
    push_arg(&mut args, "--entry-text");
    let ghost before = arg_views(args@);
    args.push(String::new());
    assert(arg_views(args@) =~= before.push(Seq::<char>::empty()));
    push_arg(&mut args, "--width");
    push_arg(&mut args, "420");
    assert(arg_views(args@) =~= seq![
        "--entry"@,
        "--title"@,
        "Clippo History"@,
        "--text"@,
        "Search clipboard history"@,
        "--entry-text"@,
        Seq::<char>::empty(),
        "--width"@,
        "420"@,
    ]);
    DialogCommand { program: "zenity", args }
}

/// The fixed arguments of the history list dialog.
pub open spec fn history_list_header() -> Seq<Seq<char>> {
    seq![
        "--list"@,
        "--title"@,
        "Clippo History"@,
        "--text"@,
        "Use arrow keys and Enter to copy the selected clipboard item."@,
        "--column"@,
        "Shortcut"@,
        "--column"@,
        "Pin"@,
        "--column"@,
        "Clip"@,
        "--print-column"@,
        "3"@,
        "--width"@,
        "520"@,
        "--height"@,
        "560"@,
    ]
}

/// The shortcut column of a row: the pinned shortcut, else the number key, else empty.
pub open spec fn shortcut_cell(item: LinuxItemView, index: int) -> Seq<char> {
    match item.pinned_shortcut {
        Some(c) => seq![c],
        None => match number_key(index) {
            Some(c) => seq![c],
            None => Seq::empty(),
        },
    }
}

/// The rows of the first `n` items: shortcut, pin mark and text of each.
pub open spec fn history_rows(h: Seq<LinuxItemView>, n: int) -> Seq<Seq<char>>
    decreases n,
{
    if n <= 0 {
        Seq::empty()
    } else {
        history_rows(h, n - 1) + seq![
            shortcut_cell(h[n - 1], n - 1),
            if h[n - 1].pinned {
                "Pinned"@
            } else {
                Seq::<char>::empty()
            },
            h[n - 1].text,
        ]
    }
}

/// The history as a list dialog with shortcut, pin and clip columns; the dialog
/// prints the chosen clip.
pub fn zenity_history_command(history: &[LinuxHistoryItem]) -> (r: DialogCommand)
    ensures
        r.program@ == "zenity"@,
        arg_views(r.args@) == history_list_header() + history_rows(
            linux_views(history@),
            history@.len() as int,
        ),
{
    let ghost hv = linux_views(history@);
    let mut args: Vec<String> = Vec::new();
    push_arg(&mut args, "--list");
    push_arg(&mut args, "--title");
    push_arg(&mut args, "Clippo History");
    push_arg(&mut args, "--text");
    push_arg(&mut args, "Use arrow keys and Enter to copy the selected clipboard item.");
    push_arg(&mut args, "--column");
    push_arg(&mut args, "Shortcut");
    push_arg(&mut args, "--column");
    push_arg(&mut args, "Pin");
    push_arg(&mut args, "--column");
    push_arg(&mut args, "Clip");
    push_arg(&mut args, "--print-column");
    push_arg(&mut args, "3");
    push_arg(&mut args, "--width");
    push_arg(&mut args, "520");
    push_arg(&mut args, "--height");
    push_arg(&mut args, "560");
    assert(arg_views(args@) =~= history_list_header() + history_rows(hv, 0));
    let mut i: usize = 0;
    while i < history.len()
        invariant
            i <= history@.len(),
            hv == linux_views(history@),
            arg_views(args@) == history_list_header() + history_rows(hv, i as int),
        decreases history@.len() - i,
    {
        let item = &history[i];
        assert(hv[i as int] == item@);
        let mut cell = String::new();
        match item.pinned_shortcut {
            Some(c) => push_char(&mut cell, c),
            None => match visible_shortcut_for_index(i) {
                Some(c) => push_char(&mut cell, c),
                None => {},
            },
        }
        assert(cell@ =~= shortcut_cell(item@, i as int));
        let ghost before = arg_views(args@);
        let ghost cv = cell@;
        args.push(cell);
        assert(arg_views(args@) =~= before.push(cv));
        push_arg(&mut args, if item.pinned {
            "Pinned"
        } else {
            ""
        });
        push_arg(&mut args, item.text.as_str());
        proof {
            reveal_strlit("");
            assert(""@ =~= Seq::<char>::empty());
        }
        let ghost pin_cell = if item.pinned {
            "Pinned"@
        } else {
            Seq::<char>::empty()
        };
        assert(arg_views(args@) == before.push(cv).push(pin_cell).push(item.text@));
        assert(history_rows(hv, i + 1) == history_rows(hv, i as int) + seq![cv, pin_cell, item.text@]);
        assert(arg_views(args@) =~= history_list_header() + history_rows(hv, i + 1));
        i = i + 1;
    }
    DialogCommand { program: "zenity", args }
}

/// A list dialog of the actions for an item.
pub fn zenity_history_action_command(pinned: bool) -> (r: DialogCommand)
    ensures
        r.program@ == "zenity"@,
        arg_views(r.args@) == seq![
            "--list"@,
            "--title"@,
            "Clippo Action"@,
            "--text"@,
            "Choose an action for the selected clipboard item."@,
            "--column"@,
            "Action"@,
            "--width"@,
            "360"@,
            "--height"@,
            "300"@,
        ] + action_labels(pinned),
{
    let mut args: Vec<String> = Vec::new();
    push_arg(&mut args, "--list");
    push_arg(&mut args, "--title");
    push_arg(&mut args, "Clippo Action");
    push_arg(&mut args, "--text");
    push_arg(&mut args, "Choose an action for the selected clipboard item.");
    push_arg(&mut args, "--column");
    push_arg(&mut args, "Action");
    push_arg(&mut args, "--width");
    push_arg(&mut args, "360");
    push_arg(&mut args, "--height");
    push_arg(&mut args, "300");
    let ghost head = arg_views(args@);
    let labels = HistoryAction::labels(pinned);
    let mut k: usize = 0;
    while k < 6
        invariant
            k <= 6,
            labels@.map_values(|l: &'static str| l@) == action_labels(pinned),
            arg_views(args@) == head + action_labels(pinned).take(k as int),
        decreases 6 - k,
    {
        assert(labels@.map_values(|l: &'static str| l@)[k as int] == labels[k as int]@);
        push_arg(&mut args, labels[k]);
        assert(action_labels(pinned).take(k + 1) =~= action_labels(pinned).take(k as int).push(
            labels[k as int]@,
        ));
        k = k + 1;
    }
    assert(action_labels(pinned).take(6) =~= action_labels(pinned));
    DialogCommand { program: "zenity", args }
}


// ---------------------------------------------------------------------------
// X11 key bindings (xbindkeys)
// ---------------------------------------------------------------------------

/// The line that opens the managed block of bindings.
pub const X11_START_MARKER: &'static str = "# BEGIN CLIPPO SHORTCUTS";

/// The line that closes the managed block of bindings.
pub const X11_END_MARKER: &'static str = "# END CLIPPO SHORTCUTS";

/// One xbindkeys binding: the quoted command line, then the keys.
pub open spec fn binding(exe: Seq<char>, flag: Seq<char>, keys: Seq<char>) -> Seq<char> {
    "\""@ + exe + " "@ + flag + "\"\n  "@ + keys + "\n"@
}

/// The five bindings of one number key: copy, paste, plain paste, pin and delete.
pub open spec fn number_bindings(exe: Seq<char>, d: char) -> Seq<char> {
    binding(exe, "--copy-shortcut="@ + seq![d], "Mod4 + "@ + seq![d]) + binding(
        exe,
        "--paste-shortcut="@ + seq![d],
        "Mod4+Mod1 + "@ + seq![d],
    ) + binding(exe, "--paste-plain-shortcut="@ + seq![d], "Mod4+Shift+Mod1 + "@ + seq![d])
        + binding(exe, "--toggle-pin-shortcut="@ + seq![d], "Mod4+Shift + "@ + seq![d]) + binding(
        exe,
        "--delete-shortcut="@ + seq![d],
        "Mod4+Control + "@ + seq![d],
    )
}

/// The bindings of the number keys 1 to `n`.
pub open spec fn number_shortcuts_upto(exe: Seq<char>, n: int) -> Seq<char>
    decreases n,
{
    if n <= 0 {
        Seq::empty()
    } else {
        number_shortcuts_upto(exe, n - 1) + number_bindings(exe, crate::text::digit_char(n as nat))
    }
}

/// The managed block of bindings, between its start and end markers.
pub open spec fn managed_block(exe: Seq<char>) -> Seq<char> {
    "# BEGIN CLIPPO SHORTCUTS"@ + "\n"@ + binding(exe, "--show-history"@, "Mod4+Shift + c"@)
        + binding(exe, "--preferences"@, "Mod4 + comma"@) + binding(
        exe,
        "--clear-unpinned"@,
        "Mod4+Control + Delete"@,
    ) + binding(exe, "--clear-all"@, "Mod4+Shift+Control + Delete"@) + number_shortcuts_upto(
        exe,
        9,
    ) + "# END CLIPPO SHORTCUTS"@ + "\n"@
}

fn push_binding(out: &mut String, exe: &str, flag: &str, keys: &str)
    ensures
        final(out)@ == old(out)@ + binding(exe@, flag@, keys@),
{
    push_str(out, "\"");
    push_str(out, exe);
    push_str(out, " ");
    push_str(out, flag);
    push_str(out, "\"\n  ");
    push_str(out, keys);
    push_str(out, "\n");
    assert(final(out)@ =~= old(out)@ + binding(exe@, flag@, keys@));
}

fn with_digit(prefix: &str, d: char) -> (r: String)
    ensures
        r@ == prefix@ + seq![d],
{
    let mut s = owned(prefix);
    push_char(&mut s, d);
    s
}

/// The bindings of the number keys 1 to 9.
pub fn xbindkeys_number_shortcuts(executable_path: &str) -> (r: String)
    ensures
        r@ == number_shortcuts_upto(executable_path@, 9),
{
    let mut out = String::new();
    let mut n: u8 = 1;
    while n <= 9
        invariant
            1 <= n <= 10,
            out@ == number_shortcuts_upto(executable_path@, n - 1),
        decreases 10 - n,
    {
        let d = digit(n);
        push_binding(
            &mut out,
            executable_path,
            with_digit("--copy-shortcut=", d).as_str(),
            with_digit("Mod4 + ", d).as_str(),
        );
        push_binding(
            &mut out,
            executable_path,
            with_digit("--paste-shortcut=", d).as_str(),
            with_digit("Mod4+Mod1 + ", d).as_str(),
        );
        push_binding(
            &mut out,
            executable_path,
            with_digit("--paste-plain-shortcut=", d).as_str(),
            with_digit("Mod4+Shift+Mod1 + ", d).as_str(),
        );
        push_binding(
            &mut out,
            executable_path,
            with_digit("--toggle-pin-shortcut=", d).as_str(),
            with_digit("Mod4+Shift + ", d).as_str(),
        );
        push_binding(
            &mut out,
            executable_path,
            with_digit("--delete-shortcut=", d).as_str(),
            with_digit("Mod4+Control + ", d).as_str(),
        );
        assert(out@ =~= number_shortcuts_upto(executable_path@, n as int));
        n = n + 1;
    }
    out
}

/// The managed xbindkeys block for the executable.
pub fn xbindkeys_block(executable_path: &str) -> (r: String)
    ensures
        r@ == managed_block(executable_path@),
{
    let mut out = owned("# BEGIN CLIPPO SHORTCUTS");
    push_str(&mut out, "\n");
    push_binding(&mut out, executable_path, "--show-history", "Mod4+Shift + c");
    push_binding(&mut out, executable_path, "--preferences", "Mod4 + comma");
    push_binding(&mut out, executable_path, "--clear-unpinned", "Mod4+Control + Delete");
    push_binding(&mut out, executable_path, "--clear-all", "Mod4+Shift+Control + Delete");
    push_str(&mut out, xbindkeys_number_shortcuts(executable_path).as_str());
    push_str(&mut out, "# END CLIPPO SHORTCUTS");
    push_str(&mut out, "\n");
    assert(out@ =~= managed_block(executable_path@));
    out
}

/// The lines outside managed blocks; the marker lines themselves go too.
pub open spec fn kept_lines(
    ls: Seq<Seq<char>>,
    start: Seq<char>,
    end: Seq<char>,
    skipping: bool,
) -> Seq<Seq<char>>
    decreases ls.len(),
{
    if ls.len() == 0 {
        Seq::empty()
    } else if ls[0] == start {
        kept_lines(ls.drop_first(), start, end, true)
    } else if ls[0] == end {
        kept_lines(ls.drop_first(), start, end, false)
    } else if !skipping {
        seq![ls[0]] + kept_lines(ls.drop_first(), start, end, skipping)
    } else {
        kept_lines(ls.drop_first(), start, end, skipping)
    }
}

/// The text without its managed blocks, trimmed.
pub fn remove_managed_block(input: &str, start_marker: &str, end_marker: &str) -> (r: String)
    ensures
        r@ == trim(
            join(kept_lines(lines(input@), start_marker@, end_marker@, false), "\n"@),
        ),
{
    let ls = split_lines(input);
    let ghost lv = ls@.map_values(|l: String| l@);
    let mut kept: Vec<String> = Vec::new();
    let mut skipping = false;
    let mut i: usize = 0;
    assert(lv.skip(0) =~= lv);
    assert(arg_views(kept@) =~= Seq::<Seq<char>>::empty());
    while i < ls.len()
        invariant
            i <= ls.len(),
            lv == ls@.map_values(|l: String| l@),
            kept_lines(lv, start_marker@, end_marker@, false) == arg_views(kept@) + kept_lines(
                lv.skip(i as int),
                start_marker@,
                end_marker@,
                skipping,
            ),
        decreases ls.len() - i,
    {
        let line = ls[i].as_str();
        let ghost rest = lv.skip(i as int);
        assert(rest[0] == line@);
        assert(rest.drop_first() =~= lv.skip(i + 1));
        if text_eq(line, start_marker) {
            skipping = true;
        } else if text_eq(line, end_marker) {
            skipping = false;
        } else if !skipping {
            let ghost before = arg_views(kept@);
            kept.push(owned(line));
            assert(arg_views(kept@) =~= before.push(line@));
            assert(before + (seq![line@] + kept_lines(lv.skip(i + 1), start_marker@, end_marker@, false))
                =~= before.push(line@) + kept_lines(lv.skip(i + 1), start_marker@, end_marker@, false));
        }
        i = i + 1;
    }
    assert(lv.skip(ls.len() as int) =~= Seq::<Seq<char>>::empty());
    assert(arg_views(kept@) + Seq::<Seq<char>>::empty() =~= arg_views(kept@));
    let joined = join_strings(&kept, "\n");
    trim_text(joined.as_str())
}

/// The block after the trimmed existing text and a blank line; the block alone when
/// the text is blank.
pub fn append_block(existing: &str, block: &str) -> (r: String)
    ensures
        r@ == if trim(existing@).len() == 0 {
            block@
        } else {
            trim(existing@) + "\n\n"@ + block@
        },
{
    let trimmed = trim_text(existing);
    if trimmed.as_str().unicode_len() == 0 {
        owned(block)
    } else {
        let mut out = trimmed;
        push_str(&mut out, "\n\n");
        push_str(&mut out, block);
        out
    }
}

} // verus!
