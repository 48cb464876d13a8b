//! The line formats of the Linux shell's state and history files.
use crate::linux_history::{linux_views, LinuxHistoryItem, LinuxItemView};
use crate::text::{
    chars_of, join, join_strings, lines, owned, push_char, push_str, split_chars, split_lines,
    split_on, string_from_chars, strip_cr, text_eq,
};
use vstd::prelude::*;

verus! {

/// A stored file that cannot be read back.
#[derive(Debug, Clone, PartialEq, Eq)]
pub enum ShellFileError {
    InvalidData(String),
}

// ---------------------------------------------------------------------------
// Escaping of history text
// ---------------------------------------------------------------------------

/// One character as stored: backslash, tab and line feed are escaped.
pub open spec fn escaped_char(c: char) -> Seq<char> {
    if c == '\\' {
        seq!['\\', '\\']
    } else if c == '\t' {
        seq!['\\', 't']
    } else if c == '\n' {
        seq!['\\', 'n']
    } else {
        seq![c]
    }
}

/// A text as stored on one line of the history file.
pub open spec fn history_escaped(s: Seq<char>) -> Seq<char>
    decreases s.len(),
{
    if s.len() == 0 {
        Seq::empty()
    } else {
        escaped_char(s[0]) + history_escaped(s.drop_first())
    }
}

/// A stored text read back: `\t`, `\n` and `\\` stand for tab, line feed and
/// backslash; a backslash before anything else, or at the end, stands for itself.
pub open spec fn history_unescaped(s: Seq<char>) -> Seq<char>
    decreases s.len(),
{
    if s.len() == 0 {
        Seq::empty()
    } else if s[0] == '\\' {
        if s.len() == 1 {
            seq!['\\']
        } else {
            let c = s[1];
            (if c == 't' {
                seq!['\t']
            } else if c == 'n' {
                seq!['\n']
            } else if c == '\\' {
                seq!['\\']
            } else {
                seq!['\\', c]
            }) + history_unescaped(s.subrange(2, s.len() as int))
        }
    } else {
        seq![s[0]] + history_unescaped(s.drop_first())
    }
}

proof fn lemma_escaped_concat(a: Seq<char>, b: Seq<char>)
    ensures
        history_escaped(a + b) == history_escaped(a) + history_escaped(b),
    decreases a.len(),
{
    if a.len() == 0 {
        assert(a + b =~= b);
    } else {
        assert((a + b).drop_first() =~= a.drop_first() + b);
        lemma_escaped_concat(a.drop_first(), b);
        assert(history_escaped(a + b) =~= escaped_char(a[0]) + history_escaped(a.drop_first())
            + history_escaped(b));
    }
}

/// Reading back a stored text gives the text: escaping is undone exactly.
pub proof fn lemma_unescape_undoes_escape(t: Seq<char>)
    ensures
        history_unescaped(history_escaped(t)) == t,
    decreases t.len(),
{
    if t.len() > 0 {
        let c = t[0];
        let rest = t.drop_first();
        let e = history_escaped(rest);
        lemma_unescape_undoes_escape(rest);
        let s = history_escaped(t);
        assert(s == escaped_char(c) + e);
        if c == '\\' || c == '\t' || c == '\n' {
            assert(s.subrange(2, s.len() as int) =~= e);
        } else {
            assert(s.drop_first() =~= e);
        }
        assert(t =~= seq![c] + rest);
    }
}

/// Stored text holds neither tabs nor line feeds.
pub proof fn lemma_escaped_has_no_separators(t: Seq<char>)
    ensures
        forall|i: int|
            0 <= i < history_escaped(t).len() ==> #[trigger] history_escaped(t)[i] != '\t'
                && history_escaped(t)[i] != '\n',
    decreases t.len(),
{
    if t.len() > 0 {
        lemma_escaped_has_no_separators(t.drop_first());
        let e = history_escaped(t.drop_first());
        let s = history_escaped(t);
        assert forall|i: int| 0 <= i < s.len() implies #[trigger] s[i] != '\t' && s[i] != '\n' by {
            let k = escaped_char(t[0]).len() as int;
            if i >= k {
                assert(s[i] == e[i - k]);
            }
        }
    }
}

/// Stored text ends with a carriage return only where the text does.
proof fn lemma_escaped_last(t: Seq<char>)
    requires
        history_escaped(t).len() > 0,
        history_escaped(t).last() == '\r',
    ensures
        t.len() > 0 && t.last() == '\r',
{
    if t.len() == 0 {
    } else {
        let init = t.drop_last();
        let c = t.last();
        assert(t =~= init + seq![c]);
        lemma_escaped_concat(init, seq![c]);
        lemma_escaped_single(c);
    }
}

proof fn lemma_escaped_single(c: char)
    ensures
        history_escaped(seq![c]) == escaped_char(c),
{
    assert(seq![c].drop_first() =~= Seq::<char>::empty());
    assert(history_escaped(Seq::<char>::empty()) == Seq::<char>::empty());
    assert(history_escaped(seq![c]) =~= escaped_char(c));
}

/// The text with backslash, tab and line feed escaped.
pub fn escape_history_text(text: &str) -> (r: String)
    ensures
        r@ == history_escaped(text@),
{
    let cs = chars_of(text);
    let mut out = String::new();
    let mut i: usize = 0;
    while i < cs.len()
        invariant
            i <= cs.len(),
            cs@ == text@,
            out@ == history_escaped(cs@.take(i as int)),
        decreases cs.len() - i,
    {
        let c = cs[i];
        proof {
            assert(cs@.take(i + 1) =~= cs@.take(i as int) + seq![c]);
            lemma_escaped_concat(cs@.take(i as int), seq![c]);
            lemma_escaped_single(c);
        }
        if c == '\\' {
            push_char(&mut out, '\\');
            push_char(&mut out, '\\');
        } else if c == '\t' {
            push_char(&mut out, '\\');
            push_char(&mut out, 't');
        } else if c == '\n' {
            push_char(&mut out, '\\');
            push_char(&mut out, 'n');
        } else {
            push_char(&mut out, c);
        }
        i = i + 1;
        assert(out@ =~= history_escaped(cs@.take(i as int)));
    }
    assert(cs@.take(cs.len() as int) =~= cs@);
    out
}

/// The stored text read back (see `history_unescaped`).
pub fn unescape_history_text(text: &str) -> (r: String)
    ensures
        r@ == history_unescaped(text@),
{
    let cs = chars_of(text);
    let mut out = String::new();
    let mut i: usize = 0;
    assert(cs@.skip(0) =~= cs@);
    while i < cs.len()
        invariant
            i <= cs.len(),
            cs@ == text@,
            history_unescaped(cs@) == out@ + history_unescaped(cs@.skip(i as int)),
        decreases cs.len() - i,
    {
        let ghost rest = cs@.skip(i as int);
        let ghost before = out@;
        let c = cs[i];
        assert(rest[0] == c);
        if c == '\\' {
            if i + 1 == cs.len() {
                push_char(&mut out, '\\');
                assert(cs@.skip(i + 1) =~= Seq::<char>::empty());
                assert(rest.len() == 1);
                i = i + 1;
                assert(history_unescaped(cs@) =~= out@ + history_unescaped(cs@.skip(i as int)));
            } else {
                let next = cs[i + 1];
                assert(rest[1] == next);
                if next == 't' {
                    push_char(&mut out, '\t');
                } else if next == 'n' {
                    push_char(&mut out, '\n');
                } else if next == '\\' {
                    push_char(&mut out, '\\');
                } else {
                    push_char(&mut out, '\\');
                    push_char(&mut out, next);
                }
                assert(rest.subrange(2, rest.len() as int) =~= cs@.skip(i + 2));
                i = i + 2;
                assert(history_unescaped(cs@) =~= out@ + history_unescaped(cs@.skip(i as int)));
            }
        } else {
            push_char(&mut out, c);
            assert(rest.drop_first() =~= cs@.skip(i + 1));
            i = i + 1;
            assert(history_unescaped(cs@) =~= out@ + history_unescaped(cs@.skip(i as int)));
        }
    }
    assert(cs@.skip(cs.len() as int) =~= Seq::<char>::empty());
    assert(out@ =~= out@ + Seq::<char>::empty());
    out
}


// ---------------------------------------------------------------------------
// The history file
// ---------------------------------------------------------------------------

/// An item as one line: pin flag, shortcut (`-` for none) and escaped text,
/// separated by tabs.
pub open spec fn item_line(v: LinuxItemView) -> Seq<char> {
    (if v.pinned {
        "1"@
    } else {
        "0"@
    }) + seq!['\t'] + seq![
        match v.pinned_shortcut {
            Some(c) => c,
            None => '-',
        },
    ] + seq!['\t'] + history_escaped(v.text)
}

/// The lines of the items.
pub open spec fn item_lines(h: Seq<LinuxItemView>) -> Seq<Seq<char>> {
    h.map_values(|v: LinuxItemView| item_line(v))
}

/// The history file: one line per item.
pub open spec fn history_file(h: Seq<LinuxItemView>) -> Seq<char> {
    join(item_lines(h), seq!['\n'])
}

/// A line read back as an item, or the reason it cannot be.
pub open spec fn parse_item_line(line: Seq<char>) -> Result<LinuxItemView, Seq<char>> {
    let fields = split_on(line, '\t');
    if fields.len() != 2 && fields.len() != 3 {
        Err("history row has invalid field count"@)
    } else {
        let flag = fields[0];
        let shortcut = if fields.len() == 2 {
            None
        } else if fields[1] == "-"@ || fields[1].len() == 0 {
            None
        } else {
            Some(fields[1][0])
        };
        let text = fields[fields.len() - 1];
        if flag == "1"@ {
            Ok(LinuxItemView { text: history_unescaped(text), pinned: true, pinned_shortcut: shortcut })
        } else if flag == "0"@ {
            Ok(
                LinuxItemView {
                    text: history_unescaped(text),
                    pinned: false,
                    pinned_shortcut: shortcut,
                },
            )
        } else {
            Err("history row has invalid pin flag"@)
        }
    }
}

/// The non-empty lines read back as items; the first line that cannot be read
/// decides the error.
pub open spec fn parse_history_lines(ls: Seq<Seq<char>>) -> Result<Seq<LinuxItemView>, Seq<char>>
    decreases ls.len(),
{
    if ls.len() == 0 {
        Ok(Seq::empty())
    } else {
        match parse_history_lines(ls.drop_last()) {
            Err(e) => Err(e),
            Ok(prev) => if ls.last().len() == 0 {
                Ok(prev)
            } else {
                match parse_item_line(ls.last()) {
                    Ok(v) => Ok(prev.push(v)),
                    Err(e) => Err(e),
                }
            },
        }
    }
}

/// A history file read back.
pub open spec fn parse_history_text(contents: Seq<char>) -> Result<Seq<LinuxItemView>, Seq<char>> {
    parse_history_lines(lines(contents))
}

/// The history as file contents, one line per item.
pub fn serialize_history_file(history: &[LinuxHistoryItem]) -> (r: String)
    ensures
        r@ == history_file(linux_views(history@)),
{
    let ghost hv = linux_views(history@);
    let mut rows: Vec<String> = Vec::new();
    let mut i: usize = 0;
    while i < history.len()
        invariant
            i <= history@.len(),
            hv == linux_views(history@),
            rows@.map_values(|r: String| r@) == hv.take(i as int).map_values(
                |v: LinuxItemView| item_line(v),
            ),
        decreases history@.len() - i,
    {
        let item = &history[i];
        let mut row = if item.pinned {
            owned("1")
        } else {
            owned("0")
        };
        push_char(&mut row, '\t');
        push_char(
            &mut row,
            match item.pinned_shortcut {
                Some(c) => c,
                None => '-',
            },
        );
        push_char(&mut row, '\t');
        push_str(&mut row, escape_history_text(item.text.as_str()).as_str());
        assert(hv[i as int] == item@);
        assert(row@ =~= item_line(item@));
        let ghost prev = rows@.map_values(|r: String| r@);
        rows.push(row);
        assert(rows@.map_values(|r: String| r@) =~= prev.push(item_line(item@)));
        assert(hv.take(i + 1).map_values(|v: LinuxItemView| item_line(v)) =~= hv.take(
            i as int,
        ).map_values(|v: LinuxItemView| item_line(v)).push(item_line(item@)));
        i = i + 1;
    }
    assert(hv.take(history@.len() as int) =~= hv);
    proof {
        reveal_strlit("\n");
        assert("\n"@ =~= seq!['\n']);
    }
    join_strings(&rows, "\n")
}

/// Whether the characters are exactly the one-character text.
fn is_single(field: &Vec<char>, c: char) -> (r: bool)
    ensures
        r == (field@ == seq![c]),
{
    if field.len() == 1 && field[0] == c {
        assert(field@ =~= seq![c]);
        true
    } else {
        false
    }
}

/// One history line read back as an item.
fn parse_history_line(line: &str) -> (r: Result<LinuxHistoryItem, ShellFileError>)
    ensures
        match (r, parse_item_line(line@)) {
            (Ok(item), Ok(v)) => item@ == v,
            (Err(ShellFileError::InvalidData(m)), Err(e)) => m@ == e,
            _ => false,
        },
{
    proof {
        reveal_strlit("1");
        reveal_strlit("0");
        reveal_strlit("-");
        assert("1"@ =~= seq!['1']);
        assert("0"@ =~= seq!['0']);
        assert("-"@ =~= seq!['-']);
    }
    let cs = chars_of(line);
    let fields = split_chars(&cs, '\t');
    let ghost fv = fields@.map_values(|p: Vec<char>| p@);
    assert(fv == split_on(line@, '\t'));
    if fields.len() != 2 && fields.len() != 3 {
        return Err(ShellFileError::InvalidData(owned("history row has invalid field count")));
    }
    let shortcut = if fields.len() == 2 {
        None
    } else if is_single(&fields[1], '-') || fields[1].len() == 0 {
        None
    } else {
        Some(fields[1][0])
    };
    assert(fv[1] == fields@[1]@);
    let last = fields.len() - 1;
    let text_field = &fields[last];
    let raw = string_from_chars(text_field, 0, text_field.len());
    assert(raw@ =~= fv[last as int]);
    let text = unescape_history_text(raw.as_str());
    assert(fv[0] == fields@[0]@);
    if is_single(&fields[0], '1') {
        Ok(LinuxHistoryItem { text, pinned: true, pinned_shortcut: shortcut })
    } else if is_single(&fields[0], '0') {
        Ok(LinuxHistoryItem { text, pinned: false, pinned_shortcut: shortcut })
    } else {
        Err(ShellFileError::InvalidData(owned("history row has invalid pin flag")))
    }
}

/// History file contents read back as items.
pub fn parse_history_file(contents: &str) -> (r: Result<Vec<LinuxHistoryItem>, ShellFileError>)
    ensures
        match (r, parse_history_text(contents@)) {
            (Ok(items), Ok(v)) => linux_views(items@) == v,
            (Err(ShellFileError::InvalidData(m)), Err(e)) => m@ == e,
            _ => false,
        },
{
    let ls = split_lines(contents);
    let ghost lv = ls@.map_values(|l: String| l@);
    let mut items: Vec<LinuxHistoryItem> = Vec::new();
    let mut i: usize = 0;
    assert(lv.take(0) =~= Seq::<Seq<char>>::empty());
    assert(linux_views(items@) =~= Seq::<LinuxItemView>::empty());
    assert(parse_history_lines(Seq::<Seq<char>>::empty()) == Ok::<Seq<LinuxItemView>, Seq<char>>(
        Seq::empty(),
    ));
    while i < ls.len()
        invariant
            i <= ls.len(),
            lv == ls@.map_values(|l: String| l@),
            lv == lines(contents@),
            parse_history_lines(lv.take(i as int)) == Ok::<Seq<LinuxItemView>, Seq<char>>(
                linux_views(items@),
            ),
        decreases ls.len() - i,
    {
        assert(lv.take(i + 1).drop_last() =~= lv.take(i as int));
        assert(lv.take(i + 1).last() == ls@[i as int]@);
        let line = ls[i].as_str();
        if line.unicode_len() != 0 {
            match parse_history_line(line) {
                Ok(item) => {
                    let ghost prev = linux_views(items@);
                    items.push(item);
                    assert(linux_views(items@) =~= prev.push(items@.last()@));
                },
                Err(e) => {
                    proof {
                        lemma_parse_error_stays(lv, i + 1);
                        assert(lv.take(lv.len() as int) =~= lv);
                    }
                    return Err(e);
                },
            }
        }
        i = i + 1;
    }
    assert(lv.take(ls.len() as int) =~= lv);
    Ok(items)
}

/// Once a line cannot be read, the lines after it do not matter.
proof fn lemma_parse_error_stays(ls: Seq<Seq<char>>, k: int)
    requires
        0 <= k <= ls.len(),
        parse_history_lines(ls.take(k)) is Err,
    ensures
        parse_history_lines(ls) == parse_history_lines(ls.take(k)),
    decreases ls.len() - k,
{
    if k < ls.len() {
        assert(ls.take(k + 1).drop_last() =~= ls.take(k));
        lemma_parse_error_stays(ls, k + 1);
    } else {
        assert(ls.take(k) =~= ls);
    }
}


// ---------------------------------------------------------------------------
// Reading back what was written
// ---------------------------------------------------------------------------

/// The text holds no `sep`.
pub open spec fn free_of(s: Seq<char>, sep: char) -> bool {
    forall|i: int| 0 <= i < s.len() ==> #[trigger] s[i] != sep
}

proof fn lemma_split_free(b: Seq<char>, sep: char)
    requires
        free_of(b, sep),
    ensures
        split_on(b, sep) == seq![b],
    decreases b.len(),
{
    if b.len() > 0 {
        let init = b.drop_last();
        assert(free_of(init, sep)) by {
            assert forall|i: int| 0 <= i < init.len() implies #[trigger] init[i] != sep by {
                assert(init[i] == b[i]);
            }
        }
        lemma_split_free(init, sep);
        assert(b.last() != sep) by {
            assert(b[b.len() - 1] != sep);
        }
        assert(init.push(b.last()) =~= b);
        assert(seq![init].update(0, init.push(b.last())) =~= seq![b]);
    } else {
        assert(b =~= Seq::<char>::empty());
    }
}

proof fn lemma_split_append(a: Seq<char>, b: Seq<char>, sep: char)
    requires
        free_of(b, sep),
    ensures
        split_on(a + seq![sep] + b, sep) == split_on(a, sep).push(b),
    decreases b.len(),
{
    if b.len() == 0 {
        assert(b =~= Seq::<char>::empty());
        assert(a + seq![sep] + b =~= a.push(sep));
        assert((a + seq![sep] + b).drop_last() =~= a);
    } else {
        let init = b.drop_last();
        assert(free_of(init, sep)) by {
            assert forall|i: int| 0 <= i < init.len() implies #[trigger] init[i] != sep by {
                assert(init[i] == b[i]);
            }
        }
        lemma_split_append(a, init, sep);
        assert(b.last() != sep) by {
            assert(b[b.len() - 1] != sep);
        }
        let whole = a + seq![sep] + b;
        assert(whole.drop_last() =~= a + seq![sep] + init);
        assert(whole.last() == b.last());
        let p = split_on(a, sep).push(init);
        assert(init.push(b.last()) =~= b);
        assert(p.update(p.len() - 1, p.last().push(b.last())) =~= split_on(a, sep).push(b));
    }
}

proof fn lemma_split_join(parts: Seq<Seq<char>>, sep: char)
    requires
        parts.len() >= 1,
        forall|k: int| 0 <= k < parts.len() ==> free_of(#[trigger] parts[k], sep),
    ensures
        split_on(join(parts, seq![sep]), sep) == parts,
    decreases parts.len(),
{
    if parts.len() == 1 {
        assert(free_of(parts[0], sep));
        lemma_split_free(parts[0], sep);
        assert(seq![parts[0]] =~= parts);
    } else {
        let init = parts.drop_last();
        assert forall|k: int| 0 <= k < init.len() implies free_of(#[trigger] init[k], sep) by {
            assert(init[k] == parts[k]);
        }
        lemma_split_join(init, sep);
        assert(free_of(parts[parts.len() - 1], sep));
        lemma_split_append(join(init, seq![sep]), parts.last(), sep);
        assert(init.push(parts.last()) =~= parts);
    }
}

/// The lines of lines joined by line feeds are those lines, when none is empty at
/// the end, holds a line feed, or ends with a carriage return.
proof fn lemma_lines_of_join(parts: Seq<Seq<char>>)
    requires
        forall|k: int| 0 <= k < parts.len() ==> free_of(#[trigger] parts[k], '\n'),
        forall|k: int| 0 <= k < parts.len() ==> strip_cr(#[trigger] parts[k]) == parts[k],
        parts.len() > 0 ==> parts.last().len() > 0,
    ensures
        lines(join(parts, seq!['\n'])) == parts,
{
    if parts.len() == 0 {
        assert(split_on(Seq::<char>::empty(), '\n') == seq![Seq::<char>::empty()]);
        assert(lines(Seq::<char>::empty()) =~= Seq::<Seq<char>>::empty());
    } else {
        lemma_split_join(parts, '\n');
        let body = parts.drop_last().map_values(|p: Seq<char>| strip_cr(p));
        assert(body =~= parts.drop_last()) by {
            assert forall|k: int| 0 <= k < body.len() implies body[k] == parts.drop_last()[k] by {
                assert(parts.drop_last()[k] == parts[k]);
            }
        }
        assert(parts.drop_last().push(parts.last()) =~= parts);
    }
}

/// An item whose line reads back as itself: its shortcut is neither `-` nor a
/// separator, and its text does not end with a carriage return.
pub open spec fn storable(v: LinuxItemView) -> bool {
    &&& v.pinned_shortcut != Some('-')
    &&& v.pinned_shortcut != Some('\t')
    &&& v.pinned_shortcut != Some('\n')
    &&& !(v.text.len() > 0 && v.text.last() == '\r')
}

proof fn lemma_item_line_shape(v: LinuxItemView)
    requires
        storable(v),
    ensures
        free_of(item_line(v), '\n'),
        strip_cr(item_line(v)) == item_line(v),
        item_line(v).len() > 0,
        parse_item_line(item_line(v)) == Ok::<LinuxItemView, Seq<char>>(v),
{
    reveal_strlit("1");
    reveal_strlit("0");
    reveal_strlit("-");
    assert("1"@ =~= seq!['1']);
    assert("0"@ =~= seq!['0']);
    assert("-"@ =~= seq!['-']);
    let flag: Seq<char> = if v.pinned {
        "1"@
    } else {
        "0"@
    };
    let sc = match v.pinned_shortcut {
        Some(c) => c,
        None => '-',
    };
    let e = history_escaped(v.text);
    lemma_escaped_has_no_separators(v.text);
    let line = item_line(v);
    assert(line == flag + seq!['\t'] + seq![sc] + seq!['\t'] + e);
    assert(free_of(e, '\t'));
    assert(free_of(e, '\n'));
    assert(free_of(flag, '\t'));
    assert(free_of(seq![sc], '\t'));
    assert(line =~= (flag + seq!['\t'] + seq![sc]) + seq!['\t'] + e);
    lemma_split_append(flag + seq!['\t'] + seq![sc], e, '\t');
    lemma_split_append(flag, seq![sc], '\t');
    lemma_split_free(flag, '\t');
    let fields = split_on(line, '\t');
    assert(fields =~= seq![flag, seq![sc], e]);
    lemma_unescape_undoes_escape(v.text);
    assert forall|i: int| 0 <= i < line.len() implies #[trigger] line[i] != '\n' by {
        let k = flag.len() + 3;
        if i >= k {
            assert(line[i] == e[i - k]);
        }
    }
    if e.len() > 0 {
        assert(line.last() == e.last());
        if e.last() == '\r' {
            lemma_escaped_last(v.text);
        }
    }
    match v.pinned_shortcut {
        Some(c) => {
            assert(seq![sc] != "-"@) by {
                assert(seq![sc][0] != "-"@[0]);
            }
        },
        None => {},
    }
    assert(flag == "1"@ <==> v.pinned);
}

/// Reading back a written history file gives the history, for items whose shortcut
/// is neither `-` nor a tab or line feed and whose text does not end with a carriage
/// return.
pub proof fn lemma_history_file_round_trip(h: Seq<LinuxItemView>)
    requires
        forall|k: int| 0 <= k < h.len() ==> storable(#[trigger] h[k]),
    ensures
        parse_history_text(history_file(h)) == Ok::<Seq<LinuxItemView>, Seq<char>>(h),
{
    let parts = item_lines(h);
    assert forall|k: int| 0 <= k < parts.len() implies free_of(#[trigger] parts[k], '\n') && strip_cr(
        parts[k],
    ) == parts[k] && parts[k].len() > 0 by {
        assert(storable(h[k]));
        lemma_item_line_shape(h[k]);
    }
    if parts.len() > 0 {
        assert(parts.last().len() > 0) by {
            assert(parts[parts.len() - 1].len() > 0);
        }
    }
    lemma_lines_of_join(parts);
    lemma_parse_lines_of_items(h);
}

proof fn lemma_parse_lines_of_items(h: Seq<LinuxItemView>)
    requires
        forall|k: int| 0 <= k < h.len() ==> storable(#[trigger] h[k]),
    ensures
        parse_history_lines(item_lines(h)) == Ok::<
            Seq<LinuxItemView>,
            Seq<char>,
        >(h),
    decreases h.len(),
{
    let parts = item_lines(h);
    if h.len() == 0 {
        assert(parts =~= Seq::<Seq<char>>::empty());
        assert(h =~= Seq::<LinuxItemView>::empty());
    } else {
        let init = h.drop_last();
        assert forall|k: int| 0 <= k < init.len() implies storable(#[trigger] init[k]) by {
            assert(init[k] == h[k]);
        }
        lemma_parse_lines_of_items(init);
        assert(parts.drop_last() =~= item_lines(init));
        assert(storable(h[h.len() - 1]));
        lemma_item_line_shape(h.last());
        assert(parts.last() == item_line(h.last()));
        assert(init.push(h.last()) =~= h);
    }
}


// ---------------------------------------------------------------------------
// The state file
// ---------------------------------------------------------------------------

#[derive(Debug, Clone, Copy, PartialEq, Eq, Structural)]
pub struct LinuxShellState {
    pub capture_paused: bool,
    pub ignore_next_copy: bool,
}

impl Default for LinuxShellState {
    fn default() -> (r: Self)
        ensures
            !r.capture_paused,
            !r.ignore_next_copy,
    {
        LinuxShellState { capture_paused: false, ignore_next_copy: false }
    }
}

pub open spec fn bool_text(b: bool) -> Seq<char> {
    if b {
        "true"@
    } else {
        "false"@
    }
}

/// The state file: one `key=value` line per flag.
pub open spec fn state_file(s: LinuxShellState) -> Seq<char> {
    "capture_paused"@ + seq!['='] + bool_text(s.capture_paused) + seq!['\n'] + "ignore_next_copy"@
        + seq!['='] + bool_text(s.ignore_next_copy) + seq!['\n']
}

/// The position of the first `c` in `s`.
pub open spec fn index_of(s: Seq<char>, c: char) -> Option<int>
    decreases s.len(),
{
    if s.len() == 0 {
        None
    } else if s[0] == c {
        Some(0)
    } else {
        match index_of(s.drop_first(), c) {
            Some(i) => Some(i + 1),
            None => None,
        }
    }
}

/// The state with the flag named by `key` set; other keys change nothing.
pub open spec fn with_flag(st: LinuxShellState, key: Seq<char>, value: bool) -> LinuxShellState {
    if key == "capture_paused"@ {
        LinuxShellState { capture_paused: value, ..st }
    } else if key == "ignore_next_copy"@ {
        LinuxShellState { ignore_next_copy: value, ..st }
    } else {
        st
    }
}

/// One line of the state file applied: lines without `=` are skipped, values other
/// than `true` and `false` are refused.
pub open spec fn apply_state_line(st: LinuxShellState, line: Seq<char>) -> Result<
    LinuxShellState,
    Seq<char>,
> {
    match index_of(line, '=') {
        None => Ok(st),
        Some(i) => {
            let key = line.take(i);
            let value = line.skip(i + 1);
            if value == "true"@ {
                Ok(with_flag(st, key, true))
            } else if value == "false"@ {
                Ok(with_flag(st, key, false))
            } else {
                Err("invalid boolean value for "@ + key)
            }
        },
    }
}

/// The lines applied in order to the default state.
pub open spec fn parse_state_lines(ls: Seq<Seq<char>>) -> Result<LinuxShellState, Seq<char>>
    decreases ls.len(),
{
    if ls.len() == 0 {
        Ok(LinuxShellState { capture_paused: false, ignore_next_copy: false })
    } else {
        match parse_state_lines(ls.drop_last()) {
            Err(e) => Err(e),
            Ok(st) => apply_state_line(st, ls.last()),
        }
    }
}

/// The state as file contents.
pub fn serialize_state_file(state: LinuxShellState) -> (r: String)
    ensures
        r@ == state_file(state),
{
    let mut out = owned("capture_paused");
    push_char(&mut out, '=');
    push_str(&mut out, if state.capture_paused {
        "true"
    } else {
        "false"
    });
    push_char(&mut out, '\n');
    push_str(&mut out, "ignore_next_copy");
    push_char(&mut out, '=');
    push_str(&mut out, if state.ignore_next_copy {
        "true"
    } else {
        "false"
    });
    push_char(&mut out, '\n');
    assert(out@ =~= state_file(state));
    out
}

/// The position of the first `c`, if any.
fn find_char(cs: &Vec<char>, c: char) -> (r: Option<usize>)
    ensures
        match r {
            Some(i) => i < cs.len() && index_of(cs@, c) == Some(i as int),
            None => index_of(cs@, c) is None,
        },
{
    let mut i: usize = 0;
    assert(cs@.skip(0) =~= cs@);
    while i < cs.len()
        invariant
            i <= cs.len(),
            forall|k: int| 0 <= k < i ==> cs@[k] != c,
            index_of(cs@, c) == match index_of(cs@.skip(i as int), c) {
                Some(j) => Some(j + i),
                None => None::<int>,
            },
        decreases cs.len() - i,
    {
        assert(cs@.skip(i as int)[0] == cs@[i as int]);
        assert(cs@.skip(i as int).drop_first() =~= cs@.skip(i + 1));
        if cs[i] == c {
            return Some(i);
        }
        i = i + 1;
    }
    assert(cs@.skip(i as int) =~= Seq::<char>::empty());
    None
}

/// One state line applied to the state.
fn apply_state_line_exec(st: LinuxShellState, line: &str) -> (r: Result<
    LinuxShellState,
    ShellFileError,
>)
    ensures
        match (r, apply_state_line(st, line@)) {
            (Ok(a), Ok(b)) => a == b,
            (Err(ShellFileError::InvalidData(m)), Err(e)) => m@ == e,
            _ => false,
        },
{
    let cs = chars_of(line);
    let i = match find_char(&cs, '=') {
        Some(i) => i,
        None => {
            return Ok(st);
        },
    };
    let key = string_from_chars(&cs, 0, i);
    let value = string_from_chars(&cs, i + 1, cs.len());
    assert(key@ =~= line@.take(i as int));
    assert(value@ =~= line@.skip(i + 1));
    let parsed = if text_eq(value.as_str(), "true") {
        true
    } else if text_eq(value.as_str(), "false") {
        false
    } else {
        let mut message = owned("invalid boolean value for ");
        push_str(&mut message, key.as_str());
        return Err(ShellFileError::InvalidData(message));
    };
    if text_eq(key.as_str(), "capture_paused") {
        Ok(LinuxShellState { capture_paused: parsed, ..st })
    } else if text_eq(key.as_str(), "ignore_next_copy") {
        Ok(LinuxShellState { ignore_next_copy: parsed, ..st })
    } else {
        Ok(st)
    }
}

/// State file contents read back.
pub fn parse_state_file(contents: &str) -> (r: Result<LinuxShellState, ShellFileError>)
    ensures
        match (r, parse_state_lines(lines(contents@))) {
            (Ok(a), Ok(b)) => a == b,
            (Err(ShellFileError::InvalidData(m)), Err(e)) => m@ == e,
            _ => false,
        },
{
    let ls = split_lines(contents);
    let ghost lv = ls@.map_values(|l: String| l@);
    let mut state = LinuxShellState { capture_paused: false, ignore_next_copy: false };
    let mut i: usize = 0;
    assert(lv.take(0) =~= Seq::<Seq<char>>::empty());
    while i < ls.len()
        invariant
            i <= ls.len(),
            lv == ls@.map_values(|l: String| l@),
            lv == lines(contents@),
            parse_state_lines(lv.take(i as int)) == Ok::<LinuxShellState, Seq<char>>(state),
        decreases ls.len() - i,
    {
        assert(lv.take(i + 1).drop_last() =~= lv.take(i as int));
        assert(lv.take(i + 1).last() == ls@[i as int]@);
        match apply_state_line_exec(state, ls[i].as_str()) {
            Ok(next) => {
                state = next;
            },
            Err(e) => {
                proof {
                    lemma_state_error_stays(lv, i + 1);
                    assert(lv.take(lv.len() as int) =~= lv);
                }
                return Err(e);
            },
        }
        i = i + 1;
    }
    assert(lv.take(ls.len() as int) =~= lv);
    Ok(state)
}

proof fn lemma_state_error_stays(ls: Seq<Seq<char>>, k: int)
    requires
        0 <= k <= ls.len(),
        parse_state_lines(ls.take(k)) is Err,
    ensures
        parse_state_lines(ls) == parse_state_lines(ls.take(k)),
    decreases ls.len() - k,
{
    if k < ls.len() {
        assert(ls.take(k + 1).drop_last() =~= ls.take(k));
        lemma_state_error_stays(ls, k + 1);
    } else {
        assert(ls.take(k) =~= ls);
    }
}


proof fn lemma_index_after(p: Seq<char>, q: Seq<char>, c: char)
    requires
        free_of(p, c),
    ensures
        index_of(p + seq![c] + q, c) == Some(p.len() as int),
    decreases p.len(),
{
    let whole = p + seq![c] + q;
    if p.len() == 0 {
        assert(whole[0] == c);
    } else {
        let rest = p.drop_first();
        assert(free_of(rest, c)) by {
            assert forall|i: int| 0 <= i < rest.len() implies #[trigger] rest[i] != c by {
                assert(rest[i] == p[i + 1]);
            }
        }
        lemma_index_after(rest, q, c);
        assert(whole.drop_first() =~= rest + seq![c] + q);
        assert(whole[0] == p[0]);
        assert(p[0] != c);
    }
}

/// One `key=value` line of the state file, read back.
proof fn lemma_state_line(st: LinuxShellState, key: Seq<char>, value: bool)
    requires
        free_of(key, '='),
    ensures
        apply_state_line(st, key + seq!['='] + bool_text(value)) == Ok::<
            LinuxShellState,
            Seq<char>,
        >(with_flag(st, key, value)),
{
    reveal_strlit("true");
    reveal_strlit("false");
    let line = key + seq!['='] + bool_text(value);
    lemma_index_after(key, bool_text(value), '=');
    assert(line.take(key.len() as int) =~= key);
    assert(line.skip(key.len() as int + 1) =~= bool_text(value));
    assert("true"@ != "false"@) by {
        assert("true"@.len() != "false"@.len());
    }
}

/// Reading back a written state file gives the state.
pub proof fn lemma_state_file_round_trip(s: LinuxShellState)
    ensures
        parse_state_lines(lines(state_file(s))) == Ok::<LinuxShellState, Seq<char>>(s),
{
    reveal_strlit("capture_paused");
    reveal_strlit("ignore_next_copy");
    reveal_strlit("true");
    reveal_strlit("false");
    let l1 = "capture_paused"@ + seq!['='] + bool_text(s.capture_paused);
    let l2 = "ignore_next_copy"@ + seq!['='] + bool_text(s.ignore_next_copy);
    let empty = Seq::<char>::empty();
    let parts = seq![l1, l2, empty];
    assert(free_of("capture_paused"@, '='));
    assert(free_of("ignore_next_copy"@, '='));
    assert(free_of(l1, '\n'));
    assert(free_of(l2, '\n'));
    assert(free_of(empty, '\n'));
    assert forall|k: int| 0 <= k < parts.len() implies free_of(#[trigger] parts[k], '\n') by {}
    lemma_split_join(parts, '\n');
    assert(parts.drop_last() =~= seq![l1, l2]);
    assert(seq![l1, l2].drop_last() =~= seq![l1]);
    assert(join(seq![l1], seq!['\n']) == l1);
    assert(join(seq![l1, l2], seq!['\n']) == l1 + seq!['\n'] + l2);
    assert(join(parts, seq!['\n']) == (l1 + seq!['\n'] + l2) + seq!['\n'] + empty);
    assert(join(parts, seq!['\n']) =~= state_file(s));
    assert(strip_cr(l1) == l1);
    assert(strip_cr(l2) == l2);
    assert(lines(state_file(s)) =~= seq![l1, l2]);
    lemma_state_line(
        LinuxShellState { capture_paused: false, ignore_next_copy: false },
        "capture_paused"@,
        s.capture_paused,
    );
    let mid = with_flag(
        LinuxShellState { capture_paused: false, ignore_next_copy: false },
        "capture_paused"@,
        s.capture_paused,
    );
    lemma_state_line(mid, "ignore_next_copy"@, s.ignore_next_copy);
    assert("ignore_next_copy"@ != "capture_paused"@) by {
        assert("ignore_next_copy"@.len() != "capture_paused"@.len());
    }
    assert(seq![l1, l2].drop_last().drop_last() =~= Seq::<Seq<char>>::empty());
    assert(parse_state_lines(seq![l1]) == apply_state_line(
        LinuxShellState { capture_paused: false, ignore_next_copy: false },
        l1,
    )) by {
        assert(seq![l1].drop_last() =~= Seq::<Seq<char>>::empty());
        assert(parse_state_lines(Seq::<Seq<char>>::empty()) == Ok::<LinuxShellState, Seq<char>>(
            LinuxShellState { capture_paused: false, ignore_next_copy: false },
        ));
    }
}

/// What to do with a clipboard change given the shell's state.
#[derive(Debug, Clone, Copy, PartialEq, Eq, Structural)]
pub enum CaptureDecision {
    /// Record the change.
    Capture,
    /// Capture is paused.
    SkipPaused,
    /// Skip this change once; the state to save clears the request.
    SkipOnce(LinuxShellState),
}

/// Paused capture skips every change; a request to ignore the next copy skips one
/// change and is then cleared.
pub fn capture_decision(state: LinuxShellState) -> (r: CaptureDecision)
    ensures
        r == if state.capture_paused {
            CaptureDecision::SkipPaused
        } else if state.ignore_next_copy {
            CaptureDecision::SkipOnce(LinuxShellState { ignore_next_copy: false, ..state })
        } else {
            CaptureDecision::Capture
        },
{
    if state.capture_paused {
        CaptureDecision::SkipPaused
    } else if state.ignore_next_copy {
        CaptureDecision::SkipOnce(LinuxShellState { ignore_next_copy: false, ..state })
    } else {
        CaptureDecision::Capture
    }
}

} // verus!
