//! The Linux shell's own text history: its items, how they are ordered, found and
//! changed, and the line format in which they are stored.
use crate::text::{
    chars_of, contains, owned, push_char, push_str, text_eq, to_lowercase, trim, trim_text,
    unicode_lowercase, contains_text,
};
use vstd::prelude::*;

verus! {

#[derive(Debug, Clone, PartialEq, Eq)]
pub struct LinuxHistoryItem {
    pub text: String,
    pub pinned: bool,
    pub pinned_shortcut: Option<char>,
}

/// An item as plain values.
pub struct LinuxItemView {
    pub text: Seq<char>,
    pub pinned: bool,
    pub pinned_shortcut: Option<char>,
}

impl View for LinuxHistoryItem {
    type V = LinuxItemView;

    open spec fn view(&self) -> LinuxItemView {
        LinuxItemView { text: self.text@, pinned: self.pinned, pinned_shortcut: self.pinned_shortcut }
    }
}

pub open spec fn linux_views(s: Seq<LinuxHistoryItem>) -> Seq<LinuxItemView> {
    s.map_values(|i: LinuxHistoryItem| i@)
}

impl LinuxHistoryItem {
    /// An unpinned item holding the text.
    pub fn new(text: &str) -> (r: Self)
        ensures
            r@ == (LinuxItemView { text: text@, pinned: false, pinned_shortcut: None }),
    {
        LinuxHistoryItem { text: owned(text), pinned: false, pinned_shortcut: None }
    }

    pub fn duplicate(&self) -> (r: Self)
        ensures
            r@ == self@,
    {
        LinuxHistoryItem {
            text: owned(self.text.as_str()),
            pinned: self.pinned,
            pinned_shortcut: self.pinned_shortcut,
        }
    }
}

fn copy_items(items: &[LinuxHistoryItem]) -> (r: Vec<LinuxHistoryItem>)
    ensures
        linux_views(r@) == linux_views(items@),
{
    let mut out: Vec<LinuxHistoryItem> = Vec::new();
    let mut i: usize = 0;
    while i < items.len()
        invariant
            i <= items@.len(),
            linux_views(out@) == linux_views(items@.take(i as int)),
        decreases items@.len() - i,
    {
        let ghost prev = linux_views(out@);
        out.push(items[i].duplicate());
        assert(linux_views(out@) =~= prev.push(items@[i as int]@));
        assert(linux_views(items@.take(i + 1)) =~= linux_views(items@.take(i as int)).push(
            items@[i as int]@,
        ));
        i = i + 1;
    }
    assert(items@.take(items@.len() as int) =~= items@);
    out
}

// ---------------------------------------------------------------------------
// Shortcuts
// ---------------------------------------------------------------------------

/// The number key shown for a list position: '1' to '9' for the first nine.
pub open spec fn number_key(index: int) -> Option<char> {
    if 0 <= index < 9 {
        Some(((index + 49) as u32) as char)
    } else {
        None
    }
}

/// The number key shown for a list position: '1' to '9' for the first nine.
pub fn visible_shortcut_for_index(index: usize) -> (r: Option<char>)
    ensures
        r == number_key(index as int),
{
    if index < 9 {
        Some(crate::text::digit((index + 1) as u8))
    } else {
        None
    }
}

/// The key that selects the item at a position: its pinned shortcut, else its
/// number key, else none (`'\0'`).
pub open spec fn visible_key(item: LinuxItemView, index: int) -> char {
    match item.pinned_shortcut {
        Some(c) => c,
        None => match number_key(index) {
            Some(c) => c,
            None => '\0',
        },
    }
}

/// The first item whose key is the shortcut.
pub fn item_by_visible_shortcut(history: &[LinuxHistoryItem], shortcut: char) -> (r: Option<
    &LinuxHistoryItem,
>)
    ensures
        match r {
            Some(item) => exists|i: int|
                0 <= i < history@.len() && history@[i] == *item && visible_key(history@[i]@, i)
                    == shortcut && forall|j: int|
                    0 <= j < i ==> visible_key(#[trigger] history@[j]@, j) != shortcut,
            None => forall|j: int|
                0 <= j < history@.len() ==> visible_key(#[trigger] history@[j]@, j) != shortcut,
        },
{
    let mut i: usize = 0;
    while i < history.len()
        invariant
            i <= history@.len(),
            forall|j: int| 0 <= j < i ==> visible_key(#[trigger] history@[j]@, j) != shortcut,
        decreases history@.len() - i,
    {
        let item = &history[i];
        let key = match item.pinned_shortcut {
            Some(c) => c,
            None => match visible_shortcut_for_index(i) {
                Some(c) => c,
                None => '\0',
            },
        };
        if key == shortcut {
            return Some(item);
        }
        i = i + 1;
    }
    None
}

/// The key for digit `k + 1`.
pub open spec fn digit_key(k: int) -> char {
    ((k + 49) as u32) as char
}

/// The first of the keys from digit `k + 1` to '9' that no item is pinned under.
pub open spec fn free_key_from(history: Seq<LinuxItemView>, k: int) -> Option<char>
    decreases 9 - k,
{
    if k >= 9 || k < 0 {
        None
    } else if !key_used(history, digit_key(k)) {
        Some(digit_key(k))
    } else {
        free_key_from(history, k + 1)
    }
}

/// The first of '1' to '9' that no item uses as its pinned shortcut.
pub open spec fn free_pinned_key(history: Seq<LinuxItemView>) -> Option<char> {
    free_key_from(history, 0)
}

/// A key found from digit `k + 1` on is a digit key that no item is pinned under.
proof fn lemma_free_key_from_is_unused(history: Seq<LinuxItemView>, k: int)
    ensures
        free_key_from(history, k) matches Some(c) ==> !key_used(history, c) && '1' <= c <= '9',
    decreases 9 - k,
{
    if 0 <= k < 9 {
        let c = digit_key(k);
        assert(c as int == k + 49);
        lemma_free_key_from_is_unused(history, k + 1);
    }
}

/// Pinning never hands out a shortcut that an item already has: the key given is
/// one of '1' to '9' and unused.
pub proof fn lemma_pinned_shortcut_is_fresh(history: Seq<LinuxItemView>)
    ensures
        free_pinned_key(history) matches Some(c) ==> !key_used(history, c) && '1' <= c <= '9',
{
    lemma_free_key_from_is_unused(history, 0);
}

/// Some item is pinned under the key.
pub open spec fn key_used(history: Seq<LinuxItemView>, c: char) -> bool {
    exists|i: int| 0 <= i < history.len() && history[i].pinned_shortcut == Some(c)
}

/// Whether some item has the pinned shortcut.
fn shortcut_in_use(history: &[LinuxHistoryItem], c: char) -> (r: bool)
    ensures
        r == key_used(linux_views(history@), c),
{
    let ghost hv = linux_views(history@);
    let mut i: usize = 0;
    while i < history.len()
        invariant
            i <= history@.len(),
            hv == linux_views(history@),
            forall|j: int| 0 <= j < i ==> hv[j].pinned_shortcut != Some(c),
        decreases history@.len() - i,
    {
        assert(hv[i as int] == history@[i as int]@);
        if history[i].pinned_shortcut == Some(c) {
            return true;
        }
        i = i + 1;
    }
    false
}

/// The shortcut a newly pinned item receives: the first free one of '1' to '9'.
pub fn next_pinned_shortcut(history: &[LinuxHistoryItem]) -> (r: Option<char>)
    ensures
        r == free_pinned_key(linux_views(history@)),
{
    let ghost hv = linux_views(history@);
    let mut k: u8 = 0;
    while k < 9
        invariant
            k <= 9,
            hv == linux_views(history@),
            free_pinned_key(hv) == free_key_from(hv, k as int),
        decreases 9 - k,
    {
        let c = crate::text::digit(k + 1);
        assert(c == digit_key(k as int));
        if !shortcut_in_use(history, c) {
            return Some(c);
        }
        k = k + 1;
    }
    None
}

// ---------------------------------------------------------------------------
// Order and search
// ---------------------------------------------------------------------------

pub open spec fn pinned_pred() -> spec_fn(LinuxItemView) -> bool {
    |v: LinuxItemView| v.pinned
}

pub open spec fn unpinned_pred() -> spec_fn(LinuxItemView) -> bool {
    |v: LinuxItemView| !v.pinned
}

pub open spec fn other_text_pred(text: Seq<char>) -> spec_fn(LinuxItemView) -> bool {
    |v: LinuxItemView| v.text != text
}

/// Items whose lower-cased text contains the needle.
pub open spec fn search_pred(needle: Seq<char>) -> spec_fn(LinuxItemView) -> bool {
    |v: LinuxItemView| contains(unicode_lowercase(v.text), needle)
}

/// Filtering one more element of a prefix.
pub proof fn lemma_filter_step<A>(s: Seq<A>, i: int, p: spec_fn(A) -> bool)
    requires
        0 <= i < s.len(),
    ensures
        s.take(i + 1).filter(p) == if p(s[i]) {
            s.take(i).filter(p).push(s[i])
        } else {
            s.take(i).filter(p)
        },
{
    reveal(Seq::filter);
    assert(s.take(i + 1).drop_last() =~= s.take(i));
    assert(s.take(i + 1).last() == s[i]);
}

/// Pinned items first, each group in its previous order (a stable sort by pin).
pub open spec fn pinned_first(s: Seq<LinuxItemView>) -> Seq<LinuxItemView> {
    s.filter(pinned_pred()) + s.filter(unpinned_pred())
}

/// Orders the history for display: pinned items first, keeping the order within
/// pinned and within unpinned items.
pub fn sort_history_for_display(history: &mut Vec<LinuxHistoryItem>)
    ensures
        linux_views(final(history)@) == pinned_first(linux_views(old(history)@)),
{
    let ghost hv = linux_views(history@);
    let mut pinned: Vec<LinuxHistoryItem> = Vec::new();
    let mut rest: Vec<LinuxHistoryItem> = Vec::new();
    let mut i: usize = 0;
    while i < history.len()
        invariant
            i <= history.len(),
            hv == linux_views(history@),
            linux_views(pinned@) == hv.take(i as int).filter(pinned_pred()),
            linux_views(rest@) == hv.take(i as int).filter(unpinned_pred()),
        decreases history.len() - i,
    {
        let item = history[i].duplicate();
        assert(hv.take(i + 1).drop_last() =~= hv.take(i as int));
        assert(hv.take(i + 1).last() == item@);
        let ghost pp = linux_views(pinned@);
        let ghost rp = linux_views(rest@);
        proof {
            lemma_filter_step(hv, i as int, pinned_pred());
            lemma_filter_step(hv, i as int, unpinned_pred());
        }
        if item.pinned {
            pinned.push(item);
            assert(linux_views(pinned@) =~= pp.push(hv[i as int]));
        } else {
            rest.push(item);
            assert(linux_views(rest@) =~= rp.push(hv[i as int]));
        }
        i = i + 1;
    }
    assert(hv.take(history.len() as int) =~= hv);
    let ghost pv = linux_views(pinned@);
    let ghost rv = linux_views(rest@);
    pinned.append(&mut rest);
    assert(linux_views(pinned@) =~= pv + rv);
    *history = pinned;
}

/// The items whose lower-cased text contains the lower-cased, trimmed query; all
/// items for a blank query.
pub open spec fn search_matches(history: Seq<LinuxItemView>, query: Seq<char>) -> Seq<LinuxItemView> {
    if trim(query).len() == 0 {
        history
    } else {
        history.filter(search_pred(unicode_lowercase(trim(query))))
    }
}

/// The items matching a search query, case-insensitively, in their order.
pub fn filter_history_for_search(history: &[LinuxHistoryItem], query: &str) -> (r: Vec<
    LinuxHistoryItem,
>)
    ensures
        linux_views(r@) == search_matches(linux_views(history@), query@),
{
    let trimmed = trim_text(query);
    if trimmed.as_str().unicode_len() == 0 {
        return copy_items(history);
    }
    let needle = to_lowercase(trimmed.as_str());
    let ghost hv = linux_views(history@);
    let ghost f = search_pred(unicode_lowercase(trim(query@)));
    let mut out: Vec<LinuxHistoryItem> = Vec::new();
    let mut i: usize = 0;
    while i < history.len()
        invariant
            i <= history@.len(),
            hv == linux_views(history@),
            needle@ == unicode_lowercase(trim(query@)),
            f == search_pred(unicode_lowercase(trim(query@))),
            linux_views(out@) == hv.take(i as int).filter(f),
        decreases history@.len() - i,
    {
        assert(hv.take(i + 1).drop_last() =~= hv.take(i as int));
        assert(hv.take(i + 1).last() == history@[i as int]@);
        proof {
            lemma_filter_step(hv, i as int, f);
        }
        let lowered = to_lowercase(history[i].text.as_str());
        if contains_text(lowered.as_str(), needle.as_str()) {
            let ghost prev = linux_views(out@);
            out.push(history[i].duplicate());
            assert(linux_views(out@) =~= prev.push(history@[i as int]@));
        }
        i = i + 1;
    }
    assert(hv.take(history@.len() as int) =~= hv);
    out
}

// ---------------------------------------------------------------------------
// Changes
// ---------------------------------------------------------------------------

/// The history after a text was copied: the text becomes the newest unpinned item
/// (any older item with it goes), pinned items stay first, and at most fifty remain.
pub open spec fn history_with_text(history: Seq<LinuxItemView>, text: Seq<char>) -> Seq<LinuxItemView> {
    let others = history.filter(other_text_pred(text));
    let added = seq![LinuxItemView { text, pinned: false, pinned_shortcut: None }] + others;
    let ordered = pinned_first(added);
    if ordered.len() > 50 {
        ordered.take(50)
    } else {
        ordered
    }
}

/// The items without those holding the text.
fn without_text(history: &[LinuxHistoryItem], text: &str) -> (r: Vec<LinuxHistoryItem>)
    ensures
        linux_views(r@) == linux_views(history@).filter(other_text_pred(text@)),
{
    let ghost hv = linux_views(history@);
    let mut out: Vec<LinuxHistoryItem> = Vec::new();
    let mut i: usize = 0;
    while i < history.len()
        invariant
            i <= history@.len(),
            hv == linux_views(history@),
            linux_views(out@) == hv.take(i as int).filter(other_text_pred(text@)),
        decreases history@.len() - i,
    {
        assert(hv.take(i + 1).drop_last() =~= hv.take(i as int));
        assert(hv.take(i + 1).last() == history@[i as int]@);
        proof {
            lemma_filter_step(hv, i as int, other_text_pred(text@));
        }
        if !text_eq(history[i].text.as_str(), text) {
            let ghost prev = linux_views(out@);
            out.push(history[i].duplicate());
            assert(linux_views(out@) =~= prev.push(history@[i as int]@));
        }
        i = i + 1;
    }
    assert(hv.take(history@.len() as int) =~= hv);
    out
}

/// The history after the text was copied (see `history_with_text`).
pub fn add_history_text(history: &[LinuxHistoryItem], text: &str) -> (r: Vec<LinuxHistoryItem>)
    ensures
        linux_views(r@) == history_with_text(linux_views(history@), text@),
{
    let others = without_text(history, text);
    let mut added: Vec<LinuxHistoryItem> = Vec::new();
    added.push(LinuxHistoryItem::new(text));
    let ghost ov = linux_views(others@);
    let mut others = others;
    added.append(&mut others);
    assert(linux_views(added@) =~= seq![
        LinuxItemView { text: text@, pinned: false, pinned_shortcut: None },
    ] + ov);
    sort_history_for_display(&mut added);
    added.truncate(50);
    let ghost ordered = pinned_first(
        seq![LinuxItemView { text: text@, pinned: false, pinned_shortcut: None }] + ov,
    );
    assert(linux_views(added@) =~= if ordered.len() > 50 {
        ordered.take(50)
    } else {
        ordered
    });
    added
}

/// Filtering twice keeps no more than the second filter alone.
proof fn lemma_filter_twice_len<A>(s: Seq<A>, p: spec_fn(A) -> bool, q: spec_fn(A) -> bool)
    ensures
        s.filter(p).filter(q).len() <= s.filter(q).len(),
    decreases s.len(),
{
    if s.len() > 0 {
        let init = s.drop_last();
        let last = s.last();
        assert(init.push(last) =~= s);
        lemma_filter_twice_len(init, p, q);
        init.lemma_filter_push(last, p);
        init.lemma_filter_push(last, q);
        init.filter(p).lemma_filter_push(last, q);
    }
}

/// Copying a text leaves at most fifty items and lists the text once, as an
/// unpinned item right after the pinned ones, whenever fewer than fifty items are pinned.
pub proof fn lemma_added_text_listed_once(history: Seq<LinuxItemView>, text: Seq<char>)
    requires
        history.filter(pinned_pred()).len() < 50,
    ensures
        ({
            let r = history_with_text(history, text);
            let p = history.filter(other_text_pred(text)).filter(pinned_pred()).len();
            &&& r.len() <= 50
            &&& p < r.len()
            &&& r[p as int] == (LinuxItemView { text, pinned: false, pinned_shortcut: None })
            &&& forall|j: int| 0 <= j < r.len() && j != p ==> (#[trigger] r[j]).text != text
            &&& forall|j: int| 0 <= j < p ==> (#[trigger] r[j]).pinned
        }),
{
    broadcast use vstd::seq_lib::group_filter_ensures;

    let x = LinuxItemView { text, pinned: false, pinned_shortcut: None };
    let others = history.filter(other_text_pred(text));
    let pins = others.filter(pinned_pred());
    let rest = others.filter(unpinned_pred());
    others.lemma_filter_prepend(x, pinned_pred());
    others.lemma_filter_prepend(x, unpinned_pred());
    assert((seq![x] + others).filter(pinned_pred()) =~= pins);
    assert((seq![x] + others).filter(unpinned_pred()) =~= seq![x] + rest);
    let full = pinned_first(seq![x] + others);
    assert(full =~= pins + (seq![x] + rest));
    lemma_filter_twice_len(history, other_text_pred(text), pinned_pred());
    let r = history_with_text(history, text);
    assert forall|j: int| 0 <= j < r.len() && j != pins.len() implies (#[trigger] r[j]).text
        != text by {
        if j < pins.len() {
            assert(pins.contains(pins[j]));
            others.lemma_filter_contains_rev(pinned_pred(), pins[j]);
            let k = choose|k: int| 0 <= k < others.len() && others[k] == pins[j];
            assert(other_text_pred(text)(others[k]));
        } else {
            let m = j - pins.len() - 1;
            assert(r[j] == rest[m]);
            assert(rest.contains(rest[m]));
            others.lemma_filter_contains_rev(unpinned_pred(), rest[m]);
            let k = choose|k: int| 0 <= k < others.len() && others[k] == rest[m];
            assert(other_text_pred(text)(others[k]));
        }
    }
    assert forall|j: int| 0 <= j < pins.len() implies (#[trigger] r[j]).pinned by {
        assert(pinned_pred()(pins[j]));
    }
}

/// The history without the items holding the text, and whether any did.
pub fn delete_history_text(history: &[LinuxHistoryItem], text: &str) -> (r: (
    Vec<LinuxHistoryItem>,
    bool,
))
    ensures
        linux_views(r.0@) == linux_views(history@).filter(other_text_pred(text@)),
        r.1 == (r.0@.len() != history@.len()),
{
    let kept = without_text(history, text);
    let changed = kept.len() != history.len();
    (kept, changed)
}

/// The item holding the text has its pin toggled: pinning gives it the first free
/// shortcut, unpinning removes its shortcut. Then pinned items are ordered first.
pub open spec fn toggled_pin(history: Seq<LinuxItemView>, i: int) -> Seq<LinuxItemView> {
    let item = history[i];
    let changed = if item.pinned {
        LinuxItemView { pinned: false, pinned_shortcut: None, ..item }
    } else {
        LinuxItemView { pinned: true, pinned_shortcut: free_pinned_key(history), ..item }
    };
    pinned_first(history.update(i, changed))
}

/// Toggles the pin of the first item holding the text; `None` when no item does,
/// else whether it is pinned now.
pub fn toggle_history_pin(history: &mut Vec<LinuxHistoryItem>, text: &str) -> (r: Option<bool>)
    ensures
        match r {
            None => {
                &&& linux_views(final(history)@) == linux_views(old(history)@)
                &&& forall|j: int|
                    0 <= j < old(history)@.len() ==> (#[trigger] old(history)@[j]).text@ != text@
            },
            Some(pinned) => exists|i: int|
                0 <= i < old(history)@.len() && old(history)@[i].text@ == text@ && (forall|j: int|
                    0 <= j < i ==> (#[trigger] old(history)@[j]).text@ != text@) && pinned
                    == !old(history)@[i].pinned && linux_views(final(history)@) == toggled_pin(
                    linux_views(old(history)@),
                    i,
                ),
        },
{
    let ghost hv = linux_views(history@);
    let next_shortcut = next_pinned_shortcut(history.as_slice());
    let mut i: usize = 0;
    while i < history.len()
        invariant
            i <= history.len(),
            history@ == old(history)@,
            hv == linux_views(history@),
            next_shortcut == free_pinned_key(hv),
            forall|j: int| 0 <= j < i ==> (#[trigger] history@[j]).text@ != text@,
        decreases history.len() - i,
    {
        if text_eq(history[i].text.as_str(), text) {
            let mut item = history[i].duplicate();
            if item.pinned {
                item.pinned = false;
                item.pinned_shortcut = None;
            } else {
                item.pinned = true;
                item.pinned_shortcut = next_shortcut;
            }
            let pinned = item.pinned;
            let ghost changed = item@;
            history.set(i, item);
            assert(linux_views(history@) =~= hv.update(i as int, changed));
            sort_history_for_display(history);
            assert(linux_views(history@) == toggled_pin(hv, i as int));
            assert(old(history)@[i as int].text@ == text@);
            return Some(pinned);
        }
        i = i + 1;
    }
    None
}

/// Keeps the pinned items; returns how many went.
pub fn clear_unpinned_history(history: &mut Vec<LinuxHistoryItem>) -> (r: usize)
    ensures
        linux_views(final(history)@) == linux_views(old(history)@).filter(pinned_pred()),
        r == old(history)@.len() - final(history)@.len(),
{
    let ghost hv = linux_views(history@);
    let before = history.len();
    let mut kept: Vec<LinuxHistoryItem> = Vec::new();
    let mut i: usize = 0;
    while i < history.len()
        invariant
            i <= history.len(),
            hv == linux_views(history@),
            linux_views(kept@) == hv.take(i as int).filter(pinned_pred()),
            kept.len() <= i,
        decreases history.len() - i,
    {
        assert(hv.take(i + 1).drop_last() =~= hv.take(i as int));
        assert(hv.take(i + 1).last() == history@[i as int]@);
        proof {
            lemma_filter_step(hv, i as int, pinned_pred());
        }
        if history[i].pinned {
            let ghost prev = linux_views(kept@);
            kept.push(history[i].duplicate());
            assert(linux_views(kept@) =~= prev.push(history@[i as int]@));
        }
        i = i + 1;
    }
    assert(hv.take(before as int) =~= hv);
    let cleared = before - kept.len();
    *history = kept;
    cleared
}

} // verus!
