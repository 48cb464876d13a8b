//! The model of the history popup: sections of rows, state flags and footer actions.
use crate::history::{item_views, ClipboardHistory};
use crate::search::{match_view, search_items, search_result, SearchMatch};
use crate::text::{digit, owned, push_char, text_eq};
use crate::types::{bounded, copy_string, ItemId, ItemView, FULL_PREVIEW_TEXT_LIMIT};
use vstd::prelude::*;

verus! {

#[derive(Debug, Clone, PartialEq, Eq)]
pub struct PopupViewModel {
    pub search_query: String,
    pub state: PopupState,
    pub sections: Vec<PopupSection>,
    pub footer_actions: Vec<FooterAction>,
}

#[derive(Debug, Clone, PartialEq, Eq, Structural)]
pub struct PopupState {
    pub empty: bool,
    pub paused: bool,
    pub ignore_next_copy: bool,
}

#[derive(Debug, Clone, PartialEq, Eq)]
pub struct PopupSection {
    pub title_key: String,
    pub rows: Vec<PopupRow>,
}

#[derive(Debug, Clone, PartialEq, Eq)]
pub struct PopupRow {
    pub item_id: ItemId,
    pub visible_shortcut: String,
    pub preview_text: String,
    pub preview_truncated: bool,
    pub full_preview_available: bool,
    pub pinned: bool,
    pub content_kind_key: String,
}

#[derive(Debug, Clone, PartialEq, Eq)]
pub struct PopupFullPreview {
    pub item_id: ItemId,
    pub text: String,
    pub truncated: bool,
}

#[derive(Debug, Clone, Copy, PartialEq, Eq, Structural)]
pub enum FooterAction {
    ClearUnpinned,
    PauseOrResumeCapture,
    IgnoreNextCopy,
    Preferences,
}

// ---------------------------------------------------------------------------
// Model
// ---------------------------------------------------------------------------

pub struct RowView {
    pub item_id: u64,
    pub visible_shortcut: Seq<char>,
    pub preview_text: Seq<char>,
    pub preview_truncated: bool,
    pub full_preview_available: bool,
    pub pinned: bool,
    pub content_kind_key: Seq<char>,
}

impl View for PopupRow {
    type V = RowView;

    open spec fn view(&self) -> RowView {
        RowView {
            item_id: self.item_id.0,
            visible_shortcut: self.visible_shortcut@,
            preview_text: self.preview_text@,
            preview_truncated: self.preview_truncated,
            full_preview_available: self.full_preview_available,
            pinned: self.pinned,
            content_kind_key: self.content_kind_key@,
        }
    }
}

pub open spec fn row_views(rows: Seq<PopupRow>) -> Seq<RowView> {
    rows.map_values(|r: PopupRow| r@)
}

/// A section as (title key, rows).
pub open spec fn section_view(s: PopupSection) -> (Seq<char>, Seq<RowView>) {
    (s.title_key@, row_views(s.rows@))
}

pub open spec fn section_views(s: Seq<PopupSection>) -> Seq<(Seq<char>, Seq<RowView>)> {
    s.map_values(|x: PopupSection| section_view(x))
}

/// The number shortcut shown at a visible position: "1" to "9" for the first nine.
pub open spec fn number_shortcut(index: nat) -> Option<Seq<char>> {
    if index < 9 {
        Some(seq![crate::text::digit_char(index + 1)])
    } else {
        None
    }
}

/// The shortcut a row shows: the pinned shortcut, else the number of its position.
pub open spec fn row_shortcut(v: ItemView, index: nat) -> Seq<char> {
    match v.pinned_shortcut {
        Some(c) => seq![c],
        None => match number_shortcut(index) {
            Some(s) => s,
            None => Seq::empty(),
        },
    }
}

/// The row for an item shown at a visible position.
pub open spec fn row_of(v: ItemView, index: nat) -> RowView {
    RowView {
        item_id: v.id,
        visible_shortcut: row_shortcut(v, index),
        preview_text: v.preview_text,
        preview_truncated: v.preview_truncated,
        full_preview_available: true,
        pinned: v.pinned,
        content_kind_key: v.content_kind_key,
    }
}

/// The position of the first item with the id, or -1.
pub open spec fn find_id(s: Seq<ItemView>, id: u64) -> int
    decreases s.len(),
{
    if s.len() == 0 {
        -1
    } else if s[0].id == id {
        0
    } else {
        let r = find_id(s.drop_first(), id);
        if r < 0 {
            -1
        } else {
            r + 1
        }
    }
}

/// The rows, in result order, for the result ids whose item is pinned (`want_pinned`)
/// or not.
pub open spec fn rows_for(items: Seq<ItemView>, ids: Seq<u64>, want_pinned: bool) -> Seq<RowView>
    decreases ids.len(),
{
    if ids.len() == 0 {
        Seq::empty()
    } else {
        let prev = rows_for(items, ids.drop_last(), want_pinned);
        let i = find_id(items, ids.last());
        if 0 <= i && items[i].pinned == want_pinned {
            prev.push(row_of(items[i], (ids.len() - 1) as nat))
        } else {
            prev
        }
    }
}

/// The sections: pinned rows, then the other rows, each only when it has rows.
pub open spec fn popup_sections(pinned: Seq<RowView>, regular: Seq<RowView>) -> Seq<
    (Seq<char>, Seq<RowView>),
> {
    (if pinned.len() > 0 {
        seq![("history.section.pinned"@, pinned)]
    } else {
        Seq::empty()
    }) + (if regular.len() > 0 {
        seq![("history.section.history"@, regular)]
    } else {
        Seq::empty()
    })
}

/// The popup for the history and query.
pub open spec fn popup_model_sections(items: Seq<ItemView>, query: Seq<char>) -> Seq<
    (Seq<char>, Seq<RowView>),
> {
    let ids = search_result(items, query).map_values(|m: (u64, u32, Seq<char>)| m.0);
    popup_sections(rows_for(items, ids, true), rows_for(items, ids, false))
}

/// The rows of all sections, in order.
pub open spec fn all_rows(sections: Seq<(Seq<char>, Seq<RowView>)>) -> Seq<RowView>
    decreases sections.len(),
{
    if sections.len() == 0 {
        Seq::empty()
    } else {
        all_rows(sections.drop_last()) + sections.last().1
    }
}

pub open spec fn label_key(a: FooterAction) -> Seq<char> {
    match a {
        FooterAction::ClearUnpinned => "action.clear_unpinned"@,
        FooterAction::PauseOrResumeCapture => "action.pause_capture"@,
        FooterAction::IgnoreNextCopy => "action.ignore_next_copy"@,
        FooterAction::Preferences => "action.preferences"@,
    }
}

// ---------------------------------------------------------------------------
// Construction
// ---------------------------------------------------------------------------

/// The number shortcut for a visible position, "1" to "9".
pub fn visible_shortcut_for_index(index: usize) -> (r: Option<String>)
    ensures
        match r {
            Some(s) => number_shortcut(index as nat) == Some(s@),
            None => number_shortcut(index as nat) is None,
        },
{
    if index < 9 {
        let mut s = String::new();
        push_char(&mut s, digit((index + 1) as u8));
        assert(s@ =~= seq![crate::text::digit_char((index + 1) as nat)]);
        Some(s)
    } else {
        None
    }
}

fn single_char_string(c: char) -> (r: String)
    ensures
        r@ == seq![c],
{
    let mut s = String::new();
    push_char(&mut s, c);
    assert(s@ =~= seq![c]);
    s
}

/// The position of the first item with the id.
fn position_in(items: &[crate::types::ClipboardItem], id: u64) -> (r: Option<usize>)
    ensures
        match r {
            Some(i) => i as int == find_id(item_views(items@), id) && i < items@.len(),
            None => find_id(item_views(items@), id) < 0,
        },
{
    let ghost v = item_views(items@);
    let mut i: usize = 0;
    assert(v.skip(0) =~= v);
    while i < items.len()
        invariant
            i <= items.len(),
            v == item_views(items@),
            find_id(v, id) == if find_id(v.skip(i as int), id) < 0 {
                -1
            } else {
                find_id(v.skip(i as int), id) + i
            },
        decreases items.len() - i,
    {
        assert(v.skip(i as int).drop_first() =~= v.skip(i + 1));
        assert(v.skip(i as int)[0] == v[i as int]);
        if items[i].id.0 == id {
            return Some(i);
        }
        i = i + 1;
    }
    assert(v.skip(i as int).len() == 0);
    None
}

impl PopupViewModel {
    /// The popup for a history and a search query.
    pub fn from_history(history: &ClipboardHistory, search_query: &str) -> (r: Self)
        ensures
            r.search_query@ == search_query@,
            r.state == (PopupState {
                empty: history.items_view().len() == 0,
                paused: !history.capture_view().enabled,
                ignore_next_copy: history.capture_view().ignore_next_copy,
            }),
            section_views(r.sections@) == popup_model_sections(history.items_view(), search_query@),
            r.footer_actions@ == seq![
                FooterAction::ClearUnpinned,
                FooterAction::PauseOrResumeCapture,
                FooterAction::IgnoreNextCopy,
                FooterAction::Preferences,
            ],
    {
        let capture_state = history.capture_state();
        let items = history.items();
        let ghost views = item_views(items@);
        let matches = search_items(items, search_query);
        let ghost ids = search_result(views, search_query@).map_values(
            |m: (u64, u32, Seq<char>)| m.0,
        );
        assert(ids.len() == matches@.len());
        assert forall|k: int| 0 <= k < ids.len() implies ids[k] == matches@[k].item_id.0 by {
            assert(matches@.map_values(|m: SearchMatch| match_view(m))[k] == match_view(
                matches@[k],
            ));
        }
        let mut pinned_rows: Vec<PopupRow> = Vec::new();
        let mut history_rows: Vec<PopupRow> = Vec::new();
        let mut k: usize = 0;
        while k < matches.len()
            invariant
                k <= matches.len(),
                ids.len() == matches@.len(),
                forall|j: int| 0 <= j < ids.len() ==> ids[j] == matches@[j].item_id.0,
                views == item_views(items@),
                row_views(pinned_rows@) == rows_for(views, ids.take(k as int), true),
                row_views(history_rows@) == rows_for(views, ids.take(k as int), false),
            decreases matches.len() - k,
        {
            assert(ids.take(k + 1).drop_last() =~= ids.take(k as int));
            assert(ids.take(k + 1).last() == ids[k as int]);
            let item_id = matches[k].item_id;
            match position_in(items, item_id.0) {
                None => {},
                Some(i) => {
                    let item = &items[i];
                    let visible_shortcut = match item.pinned_shortcut {
                        Some(c) => single_char_string(c),
                        None => match visible_shortcut_for_index(k) {
                            Some(s) => s,
                            None => String::new(),
                        },
                    };
                    let row = PopupRow {
                        item_id: item.id,
                        visible_shortcut,
                        preview_text: copy_string(&item.preview_text),
                        preview_truncated: item.preview_truncated,
                        full_preview_available: true,
                        pinned: item.pinned,
                        content_kind_key: copy_string(&item.content_kind_key),
                    };
                    assert(row@ == row_of(views[i as int], k as nat));
                    if item.pinned {
                        let ghost before = pinned_rows@;
                        pinned_rows.push(row);
                        assert(row_views(pinned_rows@) =~= row_views(before).push(row@));
                    } else {
                        let ghost before = history_rows@;
                        history_rows.push(row);
                        assert(row_views(history_rows@) =~= row_views(before).push(row@));
                    }
                },
            }
            k = k + 1;
        }
        assert(ids.take(matches.len() as int) =~= ids);
        let ghost pv = row_views(pinned_rows@);
        let ghost hv = row_views(history_rows@);
        let mut sections: Vec<PopupSection> = Vec::new();
        if pinned_rows.len() > 0 {
            sections.push(
                PopupSection { title_key: owned("history.section.pinned"), rows: pinned_rows },
            );
        }
        let ghost mid = section_views(sections@);
        if history_rows.len() > 0 {
            sections.push(
                PopupSection { title_key: owned("history.section.history"), rows: history_rows },
            );
        }
        assert(section_views(sections@) =~= popup_sections(pv, hv));
        let footer_actions = vec![
            FooterAction::ClearUnpinned,
            FooterAction::PauseOrResumeCapture,
            FooterAction::IgnoreNextCopy,
            FooterAction::Preferences,
        ];
        PopupViewModel {
            search_query: owned(search_query),
            state: PopupState {
                empty: items.len() == 0,
                paused: !capture_state.enabled,
                ignore_next_copy: capture_state.ignore_next_copy,
            },
            sections,
            footer_actions,
        }
    }

    /// The full preview of the item with the id.
    pub fn full_preview_for_item(history: &ClipboardHistory, item_id: ItemId) -> (r: Option<
        PopupFullPreview,
    >)
        ensures
            ({
                let i = find_id(history.items_view(), item_id.0);
                match r {
                    None => i < 0,
                    Some(p) => 0 <= i && p.item_id == item_id && (p.text@, p.truncated) == bounded(
                        history.items_view()[i].content.full_preview(),
                        FULL_PREVIEW_TEXT_LIMIT as nat,
                    ),
                }
            }),
    {
        let items = history.items();
        let i = match position_in(items, item_id.0) {
            Some(i) => i,
            None => {
                return None;
            },
        };
        let b = items[i].content.bounded_full_preview_text();
        Some(PopupFullPreview { item_id, text: b.text, truncated: b.truncated })
    }

    /// The item of the first row, across sections, that shows the shortcut.
    #[verifier::loop_isolation(false)]
    pub fn item_id_for_visible_shortcut(&self, shortcut: char) -> (r: Option<ItemId>)
        ensures
            ({
                let rows = all_rows(section_views(self.sections@));
                match r {
                    Some(id) => exists|k: int|
                        0 <= k < rows.len() && rows[k].visible_shortcut == seq![shortcut]
                            && rows[k].item_id == id.0 && forall|j: int|
                            0 <= j < k ==> rows[j].visible_shortcut != seq![shortcut],
                    None => forall|j: int|
                        0 <= j < rows.len() ==> rows[j].visible_shortcut != seq![shortcut],
                }
            }),
    {
        let ghost secs = section_views(self.sections@);
        let wanted = single_char_string(shortcut);
        let mut s: usize = 0;
        while s < self.sections.len()
            invariant
                s <= self.sections.len(),
                secs == section_views(self.sections@),
                wanted@ == seq![shortcut],
                forall|j: int|
                    0 <= j < all_rows(secs.take(s as int)).len() ==> all_rows(
                        secs.take(s as int),
                    )[j].visible_shortcut != seq![shortcut],
            decreases self.sections.len() - s,
        {
            assert(secs.take(s + 1).drop_last() =~= secs.take(s as int));
            let ghost prefix = all_rows(secs.take(s as int));
            let rows = &self.sections[s].rows;
            let mut k: usize = 0;
            while k < rows.len()
                invariant
                    k <= rows.len(),
                    wanted@ == seq![shortcut],
                    forall|j: int| 0 <= j < k ==> rows@[j].visible_shortcut@ != seq![shortcut],
                decreases rows.len() - k,
            {
                if text_eq(rows[k].visible_shortcut.as_str(), wanted.as_str()) {
                    proof {
                        let all = all_rows(secs.take(s + 1));
                        assert(all =~= prefix + row_views(rows@));
                        let pos = prefix.len() + k;
                        assert(all[pos as int] == rows@[k as int]@);
                        lemma_all_rows_prefix(secs, s as int + 1);
                        assert forall|j: int| 0 <= j < pos implies all_rows(secs)[j].visible_shortcut
                            != seq![shortcut] by {
                            if j < prefix.len() {
                                assert(all[j] == prefix[j]);
                            } else {
                                assert(all[j] == rows@[j - prefix.len()]@);
                            }
                        }
                        assert(all_rows(secs)[pos as int] == rows@[k as int]@);
                        assert(all_rows(secs)[pos as int].visible_shortcut == seq![shortcut]);
                        assert(0 <= pos < all_rows(secs).len());
                    }
                    return Some(rows[k].item_id);
                }
                k = k + 1;
            }
            proof {
                let all = all_rows(secs.take(s + 1));
                assert(all =~= prefix + row_views(rows@));
                assert forall|j: int| 0 <= j < all.len() implies all[j].visible_shortcut
                    != seq![shortcut] by {
                    if j >= prefix.len() {
                        assert(all[j] == rows@[j - prefix.len()]@);
                    }
                }
            }
            s = s + 1;
        }
        assert(secs.take(self.sections.len() as int) =~= secs);
        None
    }
}

/// The rows of a prefix of the sections are a prefix of all rows.
proof fn lemma_all_rows_prefix(secs: Seq<(Seq<char>, Seq<RowView>)>, n: int)
    requires
        0 <= n <= secs.len(),
    ensures
        all_rows(secs.take(n)).len() <= all_rows(secs).len(),
        forall|j: int|
            0 <= j < all_rows(secs.take(n)).len() ==> all_rows(secs.take(n))[j] == all_rows(
                secs,
            )[j],
    decreases secs.len(),
{
    if n < secs.len() {
        assert(secs.drop_last().take(n) =~= secs.take(n));
        lemma_all_rows_prefix(secs.drop_last(), n);
    } else {
        assert(secs.take(n) =~= secs);
    }
}

impl FooterAction {
    pub fn label_key(self) -> (r: &'static str)
        ensures
            r@ == label_key(self),
    {
        match self {
            FooterAction::ClearUnpinned => "action.clear_unpinned",
            FooterAction::PauseOrResumeCapture => "action.pause_capture",
            FooterAction::IgnoreNextCopy => "action.ignore_next_copy",
            FooterAction::Preferences => "action.preferences",
        }
    }
}

} // verus!
