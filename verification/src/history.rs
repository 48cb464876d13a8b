//! The clipboard history: an ordered, de-duplicated, size-limited list of items.
use crate::types::{
    bounded, ClipboardContent, ClipboardItem, ClipboardSource, ContentKind, ContentView, ItemId,
    ItemView, SourceView, TimestampMillis, new_item_view, opt_source, PREVIEW_TEXT_LIMIT,
};
use vstd::prelude::*;

verus! {

broadcast use vstd::seq_lib::group_to_multiset_ensures;

#[derive(Debug, Clone, Copy, PartialEq, Eq, Structural)]
pub struct HistoryConfig {
    pub max_items: usize,
    pub max_item_bytes: usize,
}

impl Default for HistoryConfig {
    fn default() -> (r: Self)
        ensures
            r.max_items == 200,
            r.max_item_bytes == 5 * 1024 * 1024,
    {
        HistoryConfig { max_items: 200, max_item_bytes: 5 * 1024 * 1024 }
    }
}

#[derive(Debug, Clone, Copy, PartialEq, Eq, Structural)]
pub struct CaptureState {
    pub enabled: bool,
    pub ignore_next_copy: bool,
}

impl Default for CaptureState {
    fn default() -> (r: Self)
        ensures
            r.enabled,
            !r.ignore_next_copy,
    {
        CaptureState { enabled: true, ignore_next_copy: false }
    }
}

/// Whether capture lets the next clipboard change through.
pub open spec fn copy_allowed(cap: CaptureState) -> bool {
    cap.enabled && !cap.ignore_next_copy
}

/// The capture state after one clipboard change was checked: a pending
/// `ignore_next_copy` is used up, unless capture is off.
pub open spec fn after_copy_check(cap: CaptureState) -> CaptureState {
    CaptureState { enabled: cap.enabled, ignore_next_copy: cap.ignore_next_copy && !cap.enabled }
}

/// The capture state after `ignore_next_copy`.
pub open spec fn ignoring_next(cap: CaptureState) -> CaptureState {
    CaptureState { enabled: cap.enabled, ignore_next_copy: true }
}

/// After `ignore_next_copy`, with capture on, exactly the next clipboard change is
/// skipped and the one after it is captured again.
pub proof fn lemma_ignore_next_copy_skips_one(cap: CaptureState)
    requires
        cap.enabled,
    ensures
        !copy_allowed(ignoring_next(cap)),
        copy_allowed(after_copy_check(ignoring_next(cap))),
{
}

/// While capture is paused nothing is captured, and a pending `ignore_next_copy`
/// is kept for when capture resumes.
pub proof fn lemma_paused_capture_keeps_ignore(cap: CaptureState)
    requires
        !cap.enabled,
    ensures
        !copy_allowed(cap),
        after_copy_check(cap) == cap,
{
}

#[derive(Debug, Clone, PartialEq, Eq, Structural)]
pub enum HistoryError {
    ItemTooLarge { actual: usize, maximum: usize },
    NotFound(ItemId),
}

/// What is remembered of content that the application itself wrote to the clipboard.
#[derive(Debug, Clone)]
struct InternalWriteMarker {
    content_kind: ContentKind,
    preview_text: String,
    approximate_size_bytes: usize,
}

/// The view of a marker: kind, preview text and size of the content it stands for.
pub struct MarkerView {
    pub content_kind: ContentKind,
    pub preview_text: Seq<char>,
    pub size: nat,
}

/// The marker of a content.
pub open spec fn marker_of(c: ContentView) -> MarkerView {
    MarkerView { content_kind: c.kind(), preview_text: c.preview(), size: c.size() }
}

impl InternalWriteMarker {
    spec fn view(&self) -> MarkerView {
        MarkerView {
            content_kind: self.content_kind,
            preview_text: self.preview_text@,
            size: self.approximate_size_bytes as nat,
        }
    }

    fn from_content(content: &ClipboardContent) -> (r: Self)
        requires
            content@.size() <= usize::MAX,
        ensures
            r.view() == marker_of(content@),
    {
        InternalWriteMarker {
            content_kind: content.kind(),
            preview_text: content.preview_text(),
            approximate_size_bytes: content.approximate_size_bytes(),
        }
    }

    fn same_as(&self, other: &Self) -> (r: bool)
        ensures
            r == (self.view() == other.view()),
    {
        self.content_kind == other.content_kind && crate::types::string_eq(
            &self.preview_text,
            &other.preview_text,
        ) && self.approximate_size_bytes == other.approximate_size_bytes
    }
}

/// Whether a clipboard change with content `c` is captured: capture must let it
/// through, and it must not be the content the application itself last wrote.
pub open spec fn content_captured(cap: CaptureState, marker: Option<MarkerView>, c: ContentView) -> bool {
    copy_allowed(cap) && marker != Some(marker_of(c))
}

/// The remembered own write after a change with content `c` was checked: it is used
/// up when it matched a change that capture let through.
pub open spec fn marker_after_check(cap: CaptureState, marker: Option<MarkerView>, c: ContentView) -> Option<
    MarkerView,
> {
    if copy_allowed(cap) && marker == Some(marker_of(c)) {
        None
    } else {
        marker
    }
}

/// Content the application wrote to the clipboard itself is skipped once: the
/// change it causes is not captured, and the same content copied again afterwards is.
pub proof fn lemma_own_write_skipped_once(cap: CaptureState, c: ContentView)
    requires
        copy_allowed(cap),
    ensures
        !content_captured(cap, Some(marker_of(c)), c),
        content_captured(
            after_copy_check(cap),
            marker_after_check(cap, Some(marker_of(c)), c),
            c,
        ),
{
}

#[derive(Debug, Clone)]
pub struct ClipboardHistory {
    config: HistoryConfig,
    items: Vec<ClipboardItem>,
    next_id: u64,
    capture_state: CaptureState,
    internal_write_marker: Option<InternalWriteMarker>,
}

// ---------------------------------------------------------------------------
// Order, uniqueness and limits
// ---------------------------------------------------------------------------

/// The views of a list of items.
pub open spec fn item_views(s: Seq<ClipboardItem>) -> Seq<ItemView> {
    s.map_values(|i: ClipboardItem| i@)
}

/// `a` is listed strictly before `b`: pinned items first, then the most recently
/// used, then the oldest id.
pub open spec fn listed_before(a: ItemView, b: ItemView) -> bool {
    ||| (a.pinned && !b.pinned)
    ||| (a.pinned == b.pinned && a.last_used_at > b.last_used_at)
    ||| (a.pinned == b.pinned && a.last_used_at == b.last_used_at && a.id < b.id)
}

/// No item is listed after an item that should follow it.
pub open spec fn in_list_order(s: Seq<ItemView>) -> bool {
    forall|i: int, j: int| 0 <= i < j < s.len() ==> !listed_before(s[j], s[i])
}

/// In list order, every pinned item comes before every unpinned one.
pub proof fn lemma_pinned_items_lead(s: Seq<ItemView>)
    requires
        in_list_order(s),
    ensures
        forall|i: int, j: int| 0 <= i < j < s.len() && (#[trigger] s[j]).pinned ==> (#[trigger] s[i]).pinned,
{
    assert forall|i: int, j: int| 0 <= i < j < s.len() && (#[trigger] s[j]).pinned implies (
    #[trigger] s[i]).pinned by {
        assert(!listed_before(s[j], s[i]));
    }
}

/// Item ids are pairwise different.
pub open spec fn unique_ids(s: Seq<ItemView>) -> bool {
    forall|i: int, j: int| 0 <= i < s.len() && 0 <= j < s.len() && i != j ==> s[i].id != s[j].id
}

/// Item contents are pairwise different.
pub open spec fn unique_contents(s: Seq<ItemView>) -> bool {
    forall|i: int, j: int|
        0 <= i < s.len() && 0 <= j < s.len() && i != j ==> s[i].content != s[j].content
}

/// Every item's content is within the size limit.
pub open spec fn contents_fit(s: Seq<ItemView>, max_bytes: usize) -> bool {
    forall|i: int| 0 <= i < s.len() ==> (#[trigger] s[i]).content.size() <= max_bytes
}

/// Some item holds the content.
pub open spec fn holds_content(s: Seq<ItemView>, c: ContentView) -> bool {
    exists|i: int| 0 <= i < s.len() && s[i].content == c
}

/// Some item has the id.
pub open spec fn holds_id(s: Seq<ItemView>, id: u64) -> bool {
    exists|i: int| 0 <= i < s.len() && s[i].id == id
}

/// The items kept when at most `budget` further unpinned items may stay:
/// pinned items always stay, unpinned ones stay in list order while budget remains.
pub open spec fn keep_within(s: Seq<ItemView>, budget: nat) -> Seq<ItemView>
    decreases s.len(),
{
    if s.len() == 0 {
        s
    } else if s[0].pinned {
        seq![s[0]] + keep_within(s.drop_first(), budget)
    } else if budget > 0 {
        seq![s[0]] + keep_within(s.drop_first(), (budget - 1) as nat)
    } else {
        keep_within(s.drop_first(), 0)
    }
}

/// The items left after the limit of `max` unpinned items is enforced on `s`.
pub open spec fn limited(s: Seq<ItemView>, max: nat) -> Seq<ItemView> {
    if s.len() <= max {
        s
    } else {
        keep_within(s, max)
    }
}

/// Number of unpinned items.
pub open spec fn unpinned_count(s: Seq<ItemView>) -> nat
    decreases s.len(),
{
    if s.len() == 0 {
        0
    } else {
        unpinned_count(s.drop_first()) + if s[0].pinned {
            0nat
        } else {
            1nat
        }
    }
}

/// An item after it was used again at `now`: its preview is derived from its content anew.
pub open spec fn touched(v: ItemView, now: u128) -> ItemView {
    ItemView {
        last_used_at: now,
        preview_text: bounded(v.content.preview(), PREVIEW_TEXT_LIMIT as nat).0,
        preview_truncated: bounded(v.content.preview(), PREVIEW_TEXT_LIMIT as nat).1,
        ..v
    }
}

/// How adding content that fits changes the items and the next id: content already
/// held keeps its item (and id), now touched at `now`; new content becomes an item
/// with the next id in front of the others, and unpinned items beyond `max_items`
/// go. Either way the result is in list order (see `wf`), which fixes its order.
pub open spec fn item_added(
    old_items: Seq<ItemView>,
    old_next: u64,
    new_items: Seq<ItemView>,
    new_next: u64,
    max_items: nat,
    content: ContentView,
    now: u128,
    source: Option<SourceView>,
    id: u64,
) -> bool {
    &&& holds_content(old_items, content) ==> {
        &&& new_next == old_next
        &&& forall|i: int|
            0 <= i < old_items.len() && old_items[i].content == content ==> {
                &&& id == old_items[i].id
                &&& new_items.to_multiset() == old_items.update(
                    i,
                    touched(old_items[i], now),
                ).to_multiset()
            }
    }
    &&& !holds_content(old_items, content) ==> {
        &&& id == old_next
        &&& new_next == old_next + 1
        &&& new_items.to_multiset() == limited(
            seq![new_item_view(id, content, now, source)] + old_items,
            max_items,
        ).to_multiset()
        &&& unpinned_count(new_items) <= max_items
    }
}

/// The pinned items, in order.
pub open spec fn pinned_only(s: Seq<ItemView>) -> Seq<ItemView> {
    s.filter(|v: ItemView| v.pinned)
}

/// An item after pinning, with an optional shortcut.
pub open spec fn pinned_view(v: ItemView, shortcut: Option<char>) -> ItemView {
    ItemView { pinned: true, pinned_shortcut: shortcut, ..v }
}

/// An item after unpinning.
pub open spec fn unpinned_view(v: ItemView) -> ItemView {
    ItemView { pinned: false, pinned_shortcut: None, ..v }
}

/// The first item that is pinned under the shortcut.
pub open spec fn first_with_shortcut(s: Seq<ItemView>, c: char, i: int) -> bool {
    &&& 0 <= i < s.len()
    &&& s[i].pinned && s[i].pinned_shortcut == Some(c)
    &&& forall|j: int| 0 <= j < i ==> !(s[j].pinned && s[j].pinned_shortcut == Some(c))
}

impl ClipboardHistory {
    /// The items in list order.
    pub closed spec fn items_view(&self) -> Seq<ItemView> {
        item_views(self.items@)
    }

    /// The id the next new item receives.
    pub closed spec fn next_id_view(&self) -> u64 {
        self.next_id
    }

    pub closed spec fn config_view(&self) -> HistoryConfig {
        self.config
    }

    pub closed spec fn capture_view(&self) -> CaptureState {
        self.capture_state
    }

    /// The marker of the last content the application wrote itself, if any.
    pub closed spec fn marker_view(&self) -> Option<MarkerView> {
        match self.internal_write_marker {
            Some(m) => Some(m.view()),
            None => None,
        }
    }

    /// The invariant of a history: items in list order, ids and contents
    /// unique, every id below the next one.
    pub open spec fn wf(&self) -> bool {
        &&& in_list_order(self.items_view())
        &&& unique_ids(self.items_view())
        &&& unique_contents(self.items_view())
        &&& contents_fit(self.items_view(), self.config_view().max_item_bytes)
        &&& forall|i: int|
            0 <= i < self.items_view().len() ==> #[trigger] self.items_view()[i].id
                < self.next_id_view()
    }

    /// Everything but the items is as in `old`.
    pub open spec fn same_settings(&self, old: &Self) -> bool {
        &&& self.config_view() == old.config_view()
        &&& self.next_id_view() == old.next_id_view()
        &&& self.capture_view() == old.capture_view()
        &&& self.marker_view() == old.marker_view()
    }

    /// An empty history with the given limits; capture enabled.
    pub fn new(config: HistoryConfig) -> (r: Self)
        ensures
            r.wf(),
            r.items_view() == Seq::<ItemView>::empty(),
            r.config_view() == config,
            r.next_id_view() == 1,
            r.capture_view() == (CaptureState { enabled: true, ignore_next_copy: false }),
            r.marker_view() is None,
    {
        let r = ClipboardHistory {
            config,
            items: Vec::new(),
            next_id: 1,
            capture_state: CaptureState::default(),
            internal_write_marker: None,
        };
        assert(r.items_view() =~= Seq::<ItemView>::empty());
        r
    }

    pub fn config(&self) -> (r: HistoryConfig)
        ensures
            r == self.config_view(),
    {
        self.config
    }

    /// The id the next new item receives.
    pub(crate) fn next_item_id(&self) -> (r: u64)
        ensures
            r == self.next_id_view(),
    {
        self.next_id
    }

    pub fn capture_state(&self) -> (r: CaptureState)
        ensures
            r == self.capture_view(),
    {
        self.capture_state
    }

    /// Turns capture on or off.
    pub fn set_capture_enabled(&mut self, enabled: bool)
        ensures
            final(self).capture_view() == (CaptureState {
                enabled,
                ignore_next_copy: old(self).capture_view().ignore_next_copy,
            }),
            final(self).items_view() == old(self).items_view(),
            final(self).config_view() == old(self).config_view(),
            final(self).next_id_view() == old(self).next_id_view(),
            final(self).marker_view() == old(self).marker_view(),
    {
        self.capture_state.enabled = enabled;
    }

    /// Asks that the next clipboard change be skipped.
    pub fn ignore_next_copy(&mut self)
        ensures
            final(self).capture_view() == ignoring_next(old(self).capture_view()),
            final(self).items_view() == old(self).items_view(),
            final(self).config_view() == old(self).config_view(),
            final(self).next_id_view() == old(self).next_id_view(),
            final(self).marker_view() == old(self).marker_view(),
    {
        self.capture_state.ignore_next_copy = true;
    }

    /// Whether the next clipboard change is captured: not while capture is off,
    /// and not once after `ignore_next_copy`, which this consumes.
    pub fn should_capture_next_copy(&mut self) -> (r: bool)
        ensures
            r == copy_allowed(old(self).capture_view()),
            final(self).capture_view() == after_copy_check(old(self).capture_view()),
            final(self).items_view() == old(self).items_view(),
            final(self).config_view() == old(self).config_view(),
            final(self).next_id_view() == old(self).next_id_view(),
            final(self).marker_view() == old(self).marker_view(),
    {
        if !self.capture_state.enabled {
            return false;
        }
        if self.capture_state.ignore_next_copy {
            self.capture_state.ignore_next_copy = false;
            return false;
        }
        true
    }

    /// Remembers content that the application itself is about to put on the clipboard.
    pub fn mark_internal_clipboard_write(&mut self, content: &ClipboardContent)
        requires
            content@.size() <= usize::MAX,
        ensures
            final(self).marker_view() == Some(marker_of(content@)),
            final(self).items_view() == old(self).items_view(),
            final(self).config_view() == old(self).config_view(),
            final(self).next_id_view() == old(self).next_id_view(),
            final(self).capture_view() == old(self).capture_view(),
    {
        self.internal_write_marker = Some(InternalWriteMarker::from_content(content));
    }

    /// Whether a clipboard change with this content is captured: capture must allow it
    /// (see `should_capture_next_copy`), and content the application wrote itself is
    /// skipped once.
    pub fn should_capture_content(&mut self, content: &ClipboardContent) -> (r: bool)
        requires
            content@.size() <= usize::MAX,
        ensures
            r == content_captured(old(self).capture_view(), old(self).marker_view(), content@),
            final(self).capture_view() == after_copy_check(old(self).capture_view()),
            final(self).marker_view() == marker_after_check(
                old(self).capture_view(),
                old(self).marker_view(),
                content@,
            ),
            final(self).items_view() == old(self).items_view(),
            final(self).config_view() == old(self).config_view(),
            final(self).next_id_view() == old(self).next_id_view(),
    {
        if !self.should_capture_next_copy() {
            return false;
        }
        let incoming = InternalWriteMarker::from_content(content);
        let own = match &self.internal_write_marker {
            Some(m) => m.same_as(&incoming),
            None => false,
        };
        if own {
            self.internal_write_marker = None;
            return false;
        }
        true
    }

    /// The items in list order.
    pub fn items(&self) -> (r: &[ClipboardItem])
        ensures
            item_views(r@) == self.items_view(),
    {
        self.items.as_slice()
    }

    /// The item at a list position.
    pub fn item_at_index(&self, index: usize) -> (r: Option<&ClipboardItem>)
        ensures
            match r {
                Some(it) => index < self.items_view().len() && it@ == self.items_view()[index as int],
                None => index >= self.items_view().len(),
            },
    {
        if index < self.items.len() {
            Some(&self.items[index])
        } else {
            None
        }
    }

    /// The first pinned item with the shortcut.
    pub fn item_by_pinned_shortcut(&self, shortcut: char) -> (r: Option<&ClipboardItem>)
        ensures
            match r {
                Some(it) => exists|i: int|
                    first_with_shortcut(self.items_view(), shortcut, i) && it@
                        == self.items_view()[i],
                None => forall|j: int|
                    0 <= j < self.items_view().len() ==> !(self.items_view()[j].pinned
                        && self.items_view()[j].pinned_shortcut == Some(shortcut)),
            },
    {
        let mut i: usize = 0;
        while i < self.items.len()
            invariant
                i <= self.items.len(),
                forall|j: int|
                    0 <= j < i ==> !(self.items_view()[j].pinned && self.items_view()[j].pinned_shortcut
                        == Some(shortcut)),
            decreases self.items.len() - i,
        {
            let it = &self.items[i];
            if it.pinned && it.pinned_shortcut == Some(shortcut) {
                assert(first_with_shortcut(self.items_view(), shortcut, i as int));
                return Some(it);
            }
            i = i + 1;
        }
        None
    }

    /// The list position of the item with the id.
    pub fn position_of(&self, id: ItemId) -> (r: Option<usize>)
        ensures
            match r {
                Some(i) => i < self.items_view().len() && self.items_view()[i as int].id == id.0
                    && forall|j: int| 0 <= j < i ==> self.items_view()[j].id != id.0,
                None => !holds_id(self.items_view(), id.0),
            },
    {
        let mut i: usize = 0;
        while i < self.items.len()
            invariant
                i <= self.items.len(),
                forall|j: int| 0 <= j < i ==> self.items_view()[j].id != id.0,
            decreases self.items.len() - i,
        {
            if self.items[i].id.0 == id.0 {
                return Some(i);
            }
            i = i + 1;
        }
        None
    }

    /// The list position of the item holding the content.
    fn position_of_content(&self, content: &ClipboardContent) -> (r: Option<usize>)
        ensures
            match r {
                Some(i) => i < self.items_view().len() && self.items_view()[i as int].content
                    == content@,
                None => !holds_content(self.items_view(), content@),
            },
    {
        let mut i: usize = 0;
        while i < self.items.len()
            invariant
                i <= self.items.len(),
                forall|j: int| 0 <= j < i ==> self.items_view()[j].content != content@,
            decreases self.items.len() - i,
        {
            if self.items[i].content.same_as(content) {
                return Some(i);
            }
            i = i + 1;
        }
        None
    }

    /// Adds clipboard content. Content above the size limit is refused; content already
    /// present moves to its place as the most recently used; new content becomes a new
    /// item, and the oldest unpinned items beyond the limit are dropped.
    #[verifier::rlimit(40)]
    #[verifier::spinoff_prover]
    pub fn add_item(
        &mut self,
        content: ClipboardContent,
        now: TimestampMillis,
        source: Option<ClipboardSource>,
    ) -> (r: Result<ItemId, HistoryError>)
        requires
            old(self).wf(),
            content@.size() <= usize::MAX,
            old(self).next_id_view() < u64::MAX || holds_content(
                old(self).items_view(),
                content@,
            ) || content@.size() > old(self).config_view().max_item_bytes,
        ensures
            final(self).wf(),
            final(self).config_view() == old(self).config_view(),
            final(self).capture_view() == old(self).capture_view(),
            final(self).marker_view() == old(self).marker_view(),
            unpinned_count(old(self).items_view()) <= old(self).config_view().max_items ==> unpinned_count(
                final(self).items_view(),
            ) <= old(self).config_view().max_items,
            ({
                let old_items = old(self).items_view();
                let max_bytes = old(self).config_view().max_item_bytes;
                match r {
                    Err(e) => {
                        &&& content@.size() > max_bytes
                        &&& e == HistoryError::ItemTooLarge {
                            actual: content@.size() as usize,
                            maximum: max_bytes,
                        }
                        &&& final(self).items_view() == old_items
                        &&& final(self).next_id_view() == old(self).next_id_view()
                    },
                    Ok(id) => {
                        &&& content@.size() <= max_bytes
                        &&& item_added(
                            old_items,
                            old(self).next_id_view(),
                            final(self).items_view(),
                            final(self).next_id_view(),
                            old(self).config_view().max_items as nat,
                            content@,
                            now.0,
                            opt_source(source),
                            id.0,
                        )
                    },
                }
            }),
    {
        let item_size = content.approximate_size_bytes();
        if item_size > self.config.max_item_bytes {
            return Err(HistoryError::ItemTooLarge {
                actual: item_size,
                maximum: self.config.max_item_bytes,
            });
        }
        match self.position_of_content(&content) {
            Some(existing_index) => {
                let ghost old_items = self.items_view();
                let mut existing = self.items.remove(existing_index);
                assert(item_views(self.items@) =~= old_items.remove(existing_index as int));
                existing.last_used_at = now;
                let bounded_preview = existing.content.bounded_preview_text();
                existing.preview_text = bounded_preview.text;
                existing.preview_truncated = bounded_preview.truncated;
                let id = existing.id;
                assert(existing@ == touched(old_items[existing_index as int], now.0));
                proof {
                    lemma_remove_keeps_wf(old_items, existing_index as int, self.next_id);
                }
                let p = insert_in_order(&mut self.items, existing);
                proof {
                    let x = touched(old_items[existing_index as int], now.0);
                    lemma_update_as_remove_insert(old_items, existing_index as int, p as int, x);
                    lemma_reinsert_keeps_wf(old_items, existing_index as int, p as int, x, self.next_id);
                    assert forall|i: int|
                        0 <= i < old_items.len() && old_items[i].content == content@ implies i
                        == existing_index by {}
                    lemma_touch_keeps_unpinned_count(
                        old_items,
                        existing_index as int,
                        now.0,
                        self.items_view(),
                    );
                }
                Ok(id)
            },
            None => {
                let id = ItemId(self.next_id);
                self.next_id = self.next_id + 1;
                let ghost old_items = self.items_view();
                let ghost cview = content@;
                let ghost sview = opt_source(source);
                let item = ClipboardItem::new(id, content, now, source);
                let ghost new_view = item@;
                let mut old_vec: Vec<ClipboardItem> = Vec::new();
                std::mem::swap(&mut old_vec, &mut self.items);
                let max = self.config.max_items;
                let fits = old_vec.len() < max;
                let (kept, new_kept) = if fits {
                    (old_vec, true)
                } else if max > 0 {
                    (keep_unpinned_within(old_vec, max - 1), true)
                } else {
                    (keep_unpinned_within(old_vec, 0), false)
                };
                let ghost b: nat = if max > 0 { (max - 1) as nat } else { 0 };
                proof {
                    lemma_limited_new_front(new_view, old_items, max as nat);
                    lemma_keep_within_props(old_items, b);
                    lemma_unpinned_count_le_len(old_items);
                }
                self.items = kept;
                let ghost before_insert = self.items_view();
                proof {
                    if fits {
                        assert(before_insert == old_items);
                        assert forall|k: int| 0 <= k < before_insert.len() implies exists|m: int|
                            0 <= m < old_items.len() && #[trigger] before_insert[k] == old_items[m] by {
                            assert(before_insert[k] == old_items[k]);
                        }
                    } else {
                        assert(before_insert == keep_within(old_items, b));
                    }
                    assert forall|k: int| 0 <= k < before_insert.len() implies #[trigger] before_insert[k].id
                        < id.0 && before_insert[k].content != new_view.content by {
                        let m = choose|m: int| 0 <= m < old_items.len() && before_insert[k] == old_items[m];
                        assert(old_items[m].id < id.0);
                    }
                    assert(in_list_order(before_insert));
                    assert(unique_ids(before_insert));
                    assert(unique_contents(before_insert));
                }
                if new_kept {
                    let p = insert_in_order(&mut self.items, item);
                    proof {
                        lemma_insert_new_keeps_wf(before_insert, p as int, new_view, self.next_id);
                        lemma_unpinned_count_insert(before_insert, p as int, new_view);
                        lemma_multiset_commutative_prepend(new_view, before_insert);
                        assert(limited(seq![new_view] + old_items, max as nat) == seq![new_view]
                            + before_insert);
                        assert(new_view == new_item_view(id.0, cview, now.0, sview));
                    }
                } else {
                    proof {
                        lemma_unpinned_count_keep(old_items, 0);
                    }
                }
                Ok(id)
            },
        }
    }

    /// Removes the item with the id.
    pub fn delete(&mut self, id: ItemId) -> (r: Result<(), HistoryError>)
        requires
            old(self).wf(),
        ensures
            final(self).wf(),
            final(self).same_settings(old(self)),
            match r {
                Ok(()) => exists|i: int|
                    0 <= i < old(self).items_view().len() && old(self).items_view()[i].id == id.0
                        && final(self).items_view() == old(self).items_view().remove(i),
                Err(e) => e == HistoryError::NotFound(id) && !holds_id(
                    old(self).items_view(),
                    id.0,
                ) && final(self).items_view() == old(self).items_view(),
            },
    {
        match self.position_of(id) {
            Some(i) => {
                let ghost old_items = self.items_view();
                self.items.remove(i);
                assert(self.items_view() =~= old_items.remove(i as int));
                proof {
                    lemma_remove_keeps_wf(old_items, i as int, self.next_id);
                }
                Ok(())
            },
            None => Err(HistoryError::NotFound(id)),
        }
    }

    /// Pins the item with the id, with an optional shortcut; the list is reordered.
    pub fn pin(&mut self, id: ItemId, shortcut: Option<char>) -> (r: Result<(), HistoryError>)
        requires
            old(self).wf(),
        ensures
            final(self).wf(),
            final(self).same_settings(old(self)),
            match r {
                Ok(()) => exists|i: int|
                    0 <= i < old(self).items_view().len() && old(self).items_view()[i].id == id.0
                        && final(self).items_view().to_multiset() == old(self).items_view().update(
                        i,
                        pinned_view(old(self).items_view()[i], shortcut),
                    ).to_multiset(),
                Err(e) => e == HistoryError::NotFound(id) && !holds_id(
                    old(self).items_view(),
                    id.0,
                ) && final(self).items_view() == old(self).items_view(),
            },
    {
        match self.position_of(id) {
            Some(i) => {
                let ghost old_items = self.items_view();
                let mut item = self.items.remove(i);
                assert(item_views(self.items@) =~= old_items.remove(i as int));
                item.pinned = true;
                item.pinned_shortcut = shortcut;
                let ghost x = item@;
                assert(x == pinned_view(old_items[i as int], shortcut));
                proof {
                    lemma_remove_keeps_wf(old_items, i as int, self.next_id);
                }
                let p = insert_in_order(&mut self.items, item);
                proof {
                    lemma_update_as_remove_insert(old_items, i as int, p as int, x);
                    lemma_reinsert_keeps_wf(old_items, i as int, p as int, x, self.next_id);
                }
                Ok(())
            },
            None => Err(HistoryError::NotFound(id)),
        }
    }

    /// Unpins the item with the id and drops its shortcut; the list is reordered.
    pub fn unpin(&mut self, id: ItemId) -> (r: Result<(), HistoryError>)
        requires
            old(self).wf(),
        ensures
            final(self).wf(),
            final(self).same_settings(old(self)),
            match r {
                Ok(()) => exists|i: int|
                    0 <= i < old(self).items_view().len() && old(self).items_view()[i].id == id.0
                        && final(self).items_view().to_multiset() == old(self).items_view().update(
                        i,
                        unpinned_view(old(self).items_view()[i]),
                    ).to_multiset(),
                Err(e) => e == HistoryError::NotFound(id) && !holds_id(
                    old(self).items_view(),
                    id.0,
                ) && final(self).items_view() == old(self).items_view(),
            },
    {
        match self.position_of(id) {
            Some(i) => {
                let ghost old_items = self.items_view();
                let mut item = self.items.remove(i);
                assert(item_views(self.items@) =~= old_items.remove(i as int));
                item.pinned = false;
                item.pinned_shortcut = None;
                let ghost x = item@;
                assert(x == unpinned_view(old_items[i as int]));
                proof {
                    lemma_remove_keeps_wf(old_items, i as int, self.next_id);
                }
                let p = insert_in_order(&mut self.items, item);
                proof {
                    lemma_update_as_remove_insert(old_items, i as int, p as int, x);
                    lemma_reinsert_keeps_wf(old_items, i as int, p as int, x, self.next_id);
                }
                Ok(())
            },
            None => Err(HistoryError::NotFound(id)),
        }
    }

    /// Removes every unpinned item.
    pub fn clear_unpinned(&mut self)
        requires
            old(self).wf(),
        ensures
            final(self).wf(),
            final(self).same_settings(old(self)),
            final(self).items_view() == pinned_only(old(self).items_view()),
    {
        let ghost old_items = self.items_view();
        let mut old_vec: Vec<ClipboardItem> = Vec::new();
        std::mem::swap(&mut old_vec, &mut self.items);
        let mut kept: Vec<ClipboardItem> = Vec::new();
        for it in iter: old_vec.into_iter()
            invariant
                iter.seq() == old_vec@,
                item_views(old_vec@) == old_items,
                item_views(kept@) == pinned_only(item_views(old_vec@).take(iter.index() as int)),
        {
            proof {
                let s = item_views(old_vec@);
                let k = iter.index() as int;
                assert(s.take(k + 1).drop_last() =~= s.take(k));
                reveal(Seq::filter);
            }
            if it.pinned {
                kept.push(it);
                assert(item_views(kept@) =~= pinned_only(item_views(old_vec@).take(iter.index() as int + 1)));
            }
        }
        proof {
            assert(item_views(old_vec@).take(old_vec@.len() as int) =~= item_views(old_vec@));
        }
        self.items = kept;
        proof {
            lemma_filter_keeps_wf(old_items, self.next_id);
        }
    }

    /// Removes every item.
    pub fn clear_all(&mut self)
        ensures
            final(self).wf(),
            final(self).same_settings(old(self)),
            final(self).items_view() == Seq::<ItemView>::empty(),
    {
        self.items.clear();
        assert(self.items_view() =~= Seq::<ItemView>::empty());
    }
}

impl Default for ClipboardHistory {
    fn default() -> (r: Self)
        ensures
            r.wf(),
            r.items_view() == Seq::<ItemView>::empty(),
            r.config_view() == (HistoryConfig { max_items: 200, max_item_bytes: 5242880 }),
            r.next_id_view() == 1,
            r.capture_view() == (CaptureState { enabled: true, ignore_next_copy: false }),
            r.marker_view() is None,
    {
        Self::new(HistoryConfig::default())
    }
}

// ---------------------------------------------------------------------------
// Ordered insertion and limit enforcement
// ---------------------------------------------------------------------------

/// Whether `a` is listed strictly before `b`.
fn is_listed_before(a: &ClipboardItem, b: &ClipboardItem) -> (r: bool)
    ensures
        r == listed_before(a@, b@),
{
    (a.pinned && !b.pinned) || (a.pinned == b.pinned && a.last_used_at.0 > b.last_used_at.0) || (
    a.pinned == b.pinned && a.last_used_at.0 == b.last_used_at.0 && a.id.0 < b.id.0)
}

/// Inserts an item at its place in list order; returns the position.
fn insert_in_order(items: &mut Vec<ClipboardItem>, x: ClipboardItem) -> (p: usize)
    requires
        in_list_order(item_views(old(items)@)),
    ensures
        p <= old(items)@.len(),
        final(items)@ == old(items)@.insert(p as int, x),
        item_views(final(items)@) == item_views(old(items)@).insert(p as int, x@),
        in_list_order(item_views(final(items)@)),
{
    let ghost s = item_views(items@);
    let mut p: usize = 0;
    while p < items.len() && !is_listed_before(&x, &items[p])
        invariant
            p <= items.len(),
            s == item_views(items@),
            forall|k: int| 0 <= k < p ==> !listed_before(x@, #[trigger] s[k]),
        decreases items.len() - p,
    {
        p = p + 1;
    }
    let ghost old_seq = items@;
    items.insert(p, x);
    assert(item_views(items@) =~= s.insert(p as int, x@));
    assert forall|i: int, j: int|
        0 <= i < j < item_views(items@).len() implies !listed_before(
        item_views(items@)[j],
        item_views(items@)[i],
    ) by {
        let t = item_views(items@);
        if j < p {
        } else if j == p {
        } else if i < p {
        } else if i == p {
            assert(listed_before(x@, s[p as int]));
            if j - 1 > p {
                assert(!listed_before(s[j - 1], s[p as int]));
            }
        } else {
        }
    }
    p
}

/// The unpinned items beyond the budget removed; pinned items and order kept.
fn keep_unpinned_within(items: Vec<ClipboardItem>, budget: usize) -> (r: Vec<ClipboardItem>)
    ensures
        item_views(r@) == keep_within(item_views(items@), budget as nat),
{
    let ghost s = item_views(items@);
    let mut kept: Vec<ClipboardItem> = Vec::new();
    let mut left: usize = budget;
    assert(s.skip(0) =~= s);
    assert(item_views(kept@) + keep_within(s, budget as nat) =~= keep_within(s, budget as nat));
    for it in iter: items.into_iter()
        invariant
            iter.seq() == items@,
            s == item_views(items@),
            left <= budget,
            keep_within(s, budget as nat) == item_views(kept@) + keep_within(
                s.skip(iter.index() as int),
                left as nat,
            ),
    {
        let ghost k = iter.index() as int;
        proof {
            assert(s.skip(k).drop_first() =~= s.skip(k + 1));
            assert(s.skip(k)[0] == it@);
        }
        let ghost before = item_views(kept@);
        if it.pinned {
            kept.push(it);
            assert(item_views(kept@) =~= before + seq![s[k]]);
        } else if left > 0 {
            kept.push(it);
            left = left - 1;
            assert(item_views(kept@) =~= before + seq![s[k]]);
        }
        proof {
            assert(keep_within(s, budget as nat) =~= item_views(kept@) + keep_within(
                s.skip(k + 1),
                left as nat,
            ));
        }
    }
    proof {
        assert(s.skip(items@.len() as int) =~= Seq::<ItemView>::empty());
        assert(keep_within(s, budget as nat) =~= item_views(kept@));
    }
    kept
}

// ---------------------------------------------------------------------------
// Lemmas
// ---------------------------------------------------------------------------

proof fn lemma_remove_keeps_wf(s: Seq<ItemView>, i: int, next: u64)
    requires
        0 <= i < s.len(),
        in_list_order(s),
        unique_ids(s),
        unique_contents(s),
        forall|k: int| 0 <= k < s.len() ==> #[trigger] s[k].id < next,
    ensures
        in_list_order(s.remove(i)),
        unique_ids(s.remove(i)),
        unique_contents(s.remove(i)),
        forall|k: int| 0 <= k < s.remove(i).len() ==> #[trigger] s.remove(i)[k].id < next,
{
    let t = s.remove(i);
    assert forall|a: int, b: int| 0 <= a < b < t.len() implies !listed_before(t[b], t[a]) by {
        let a2 = if a < i { a } else { a + 1 };
        let b2 = if b < i { b } else { b + 1 };
        assert(t[a] == s[a2] && t[b] == s[b2]);
    }
    assert forall|a: int, b: int|
        0 <= a < t.len() && 0 <= b < t.len() && a != b implies t[a].id != t[b].id && t[a].content
        != t[b].content by {
        let a2 = if a < i { a } else { a + 1 };
        let b2 = if b < i { b } else { b + 1 };
        assert(t[a] == s[a2] && t[b] == s[b2]);
    }
    assert forall|k: int| 0 <= k < t.len() implies #[trigger] t[k].id < next by {
        let k2 = if k < i { k } else { k + 1 };
        assert(t[k] == s[k2]);
    }
}

/// Removing at `i` and inserting `x` at `p` holds the same items as updating at `i`.
proof fn lemma_update_as_remove_insert(s: Seq<ItemView>, i: int, p: int, x: ItemView)
    requires
        0 <= i < s.len(),
        0 <= p <= s.len() - 1,
    ensures
        s.remove(i).insert(p, x).to_multiset() == s.update(i, x).to_multiset(),
{
    broadcast use vstd::multiset::group_multiset_axioms;

    assert(s.remove(i).insert(p, x).to_multiset() =~= s.to_multiset().remove(s[i]).insert(x));
    assert(s.to_multiset().contains(s[i]));
    assert(s.update(i, x).to_multiset() =~= s.to_multiset().insert(x).remove(s[i]));
}

/// Re-inserting an updated item that keeps its id and content keeps the invariant.
proof fn lemma_reinsert_keeps_wf(s: Seq<ItemView>, i: int, p: int, x: ItemView, next: u64)
    requires
        0 <= i < s.len(),
        0 <= p <= s.len() - 1,
        unique_ids(s),
        unique_contents(s),
        forall|k: int| 0 <= k < s.len() ==> #[trigger] s[k].id < next,
        x.id == s[i].id,
        x.content == s[i].content,
    ensures
        unique_ids(s.remove(i).insert(p, x)),
        unique_contents(s.remove(i).insert(p, x)),
        forall|k: int|
            0 <= k < s.remove(i).insert(p, x).len() ==> #[trigger] s.remove(i).insert(p, x)[k].id
                < next,
{
    let t = s.remove(i).insert(p, x);
    let r = s.remove(i);
    assert forall|k: int| 0 <= k < t.len() implies (k == p && t[k] == x) || (k != p && exists|m: int|
        0 <= m < s.len() && m != i && t[k] == s[m]) by {
        if k < p {
            let m = if k < i { k } else { k + 1 };
            assert(t[k] == r[k] && r[k] == s[m]);
        } else if k > p {
            let m = if k - 1 < i { k - 1 } else { k };
            assert(t[k] == r[k - 1] && r[k - 1] == s[m]);
        }
    }
    assert forall|a: int, b: int|
        0 <= a < t.len() && 0 <= b < t.len() && a != b implies t[a].id != t[b].id && t[a].content
        != t[b].content by {
        if a == p {
            let mb = choose|m: int| 0 <= m < s.len() && m != i && t[b] == s[m];
        } else if b == p {
            let ma = choose|m: int| 0 <= m < s.len() && m != i && t[a] == s[m];
        } else {
            let ma = choose|m: int| 0 <= m < s.len() && m != i && t[a] == s[m];
            let mb = choose|m: int| 0 <= m < s.len() && m != i && t[b] == s[m];
            if a < p && b < p {
                assert(ma != mb);
            } else if a > p && b > p {
                assert(ma != mb);
            } else {
                assert(ma != mb);
            }
        }
    }
    assert forall|k: int| 0 <= k < t.len() implies #[trigger] t[k].id < next by {
        if k != p {
            let m = choose|m: int| 0 <= m < s.len() && m != i && t[k] == s[m];
        }
    }
}

/// Inserting a new item whose id is above every present id keeps the invariant.
proof fn lemma_insert_new_keeps_wf(s: Seq<ItemView>, p: int, x: ItemView, next: u64)
    requires
        0 <= p <= s.len(),
        unique_ids(s),
        unique_contents(s),
        forall|k: int| 0 <= k < s.len() ==> #[trigger] s[k].id < x.id,
        x.id < next,
        forall|k: int| 0 <= k < s.len() ==> s[k].content != x.content,
    ensures
        unique_ids(s.insert(p, x)),
        unique_contents(s.insert(p, x)),
        forall|k: int| 0 <= k < s.insert(p, x).len() ==> #[trigger] s.insert(p, x)[k].id < next,
{
    let t = s.insert(p, x);
    assert forall|a: int, b: int|
        0 <= a < t.len() && 0 <= b < t.len() && a != b implies t[a].id != t[b].id && t[a].content
        != t[b].content by {
        let a2 = if a < p { a } else { a - 1 };
        let b2 = if b < p { b } else { b - 1 };
        if a != p && b != p {
            assert(t[a] == s[a2] && t[b] == s[b2]);
        } else if a == p {
            assert(t[b] == s[b2]);
        } else {
            assert(t[a] == s[a2]);
        }
    }
    assert forall|k: int| 0 <= k < t.len() implies #[trigger] t[k].id < next by {
        if k < p {
            assert(t[k] == s[k]);
        } else if k > p {
            assert(t[k] == s[k - 1]);
        }
    }
}

/// What `keep_within` keeps: an order-preserving selection of the items, holding every
/// pinned item, with at most `budget` unpinned ones.
proof fn lemma_keep_within_props(s: Seq<ItemView>, budget: nat)
    ensures
        forall|k: int|
            0 <= k < keep_within(s, budget).len() ==> exists|m: int|
                0 <= m < s.len() && #[trigger] keep_within(s, budget)[k] == s[m],
        in_list_order(s) ==> in_list_order(keep_within(s, budget)),
        unique_ids(s) ==> unique_ids(keep_within(s, budget)),
        unique_contents(s) ==> unique_contents(keep_within(s, budget)),
        unpinned_count(keep_within(s, budget)) <= budget,
        keep_within(s, budget).to_multiset().subset_of(s.to_multiset()),
    decreases s.len(),
{
    broadcast use vstd::multiset::group_multiset_axioms;

    if s.len() == 0 {
    } else {
        let rest = s.drop_first();
        let nb: nat = if s[0].pinned {
            budget
        } else if budget > 0 {
            (budget - 1) as nat
        } else {
            0
        };
        lemma_keep_within_props(rest, nb);
        let kr = keep_within(rest, nb);
        let k = keep_within(s, budget);
        assert(s =~= seq![s[0]] + rest);
        lemma_multiset_commutative_prepend(s[0], rest);
        if s[0].pinned || budget > 0 {
            assert(k =~= seq![s[0]] + kr);
            lemma_multiset_commutative_prepend(s[0], kr);
            assert(unpinned_count(k) == unpinned_count(kr) + if s[0].pinned {
                0nat
            } else {
                1nat
            }) by {
                assert(k.drop_first() =~= kr);
            }
            assert forall|a: int| 0 <= a < k.len() implies exists|m: int|
                0 <= m < s.len() && #[trigger] k[a] == s[m] by {
                if a == 0 {
                    assert(k[a] == s[0]);
                } else {
                    assert(k[a] == kr[a - 1]);
                    let m = choose|m: int| 0 <= m < rest.len() && kr[a - 1] == rest[m];
                    assert(k[a] == s[m + 1]);
                }
            }
            if in_list_order(s) {
                assert forall|a: int, b: int| 0 <= a < b < k.len() implies !listed_before(
                    k[b],
                    k[a],
                ) by {
                    assert(in_list_order(rest));
                    if a == 0 {
                        let m = choose|m: int| 0 <= m < rest.len() && kr[b - 1] == rest[m];
                        assert(k[b] == s[m + 1]);
                    } else {
                        assert(k[a] == kr[a - 1] && k[b] == kr[b - 1]);
                    }
                }
            }
            if unique_ids(s) || unique_contents(s) {
                assert(forall|m: int| 0 <= m < rest.len() ==> rest[m] == s[m + 1]);
                assert forall|a: int, b: int|
                    0 <= a < k.len() && 0 <= b < k.len() && a != b implies (unique_ids(s)
                    ==> k[a].id != k[b].id) && (unique_contents(s) ==> k[a].content
                    != k[b].content) by {
                    if a == 0 {
                        let mb = choose|m: int| 0 <= m < rest.len() && kr[b - 1] == rest[m];
                        assert(k[b] == s[mb + 1]);
                    } else if b == 0 {
                        let ma = choose|m: int| 0 <= m < rest.len() && kr[a - 1] == rest[m];
                        assert(k[a] == s[ma + 1]);
                    } else {
                        assert(k[a] == kr[a - 1] && k[b] == kr[b - 1]);
                    }
                }
            }
        } else {
            assert(k == kr);
            assert forall|a: int| 0 <= a < k.len() implies exists|m: int|
                0 <= m < s.len() && #[trigger] k[a] == s[m] by {
                let m = choose|m: int| 0 <= m < rest.len() && kr[a] == rest[m];
                assert(k[a] == s[m + 1]);
            }
            if in_list_order(s) {
                assert(in_list_order(rest));
            }
            if unique_ids(s) {
                assert(unique_ids(rest));
            }
            if unique_contents(s) {
                assert(unique_contents(rest));
            }
        }
    }
}

proof fn lemma_multiset_commutative_prepend(x: ItemView, s: Seq<ItemView>)
    ensures
        (seq![x] + s).to_multiset() == s.to_multiset().insert(x),
{
    broadcast use vstd::multiset::group_multiset_axioms;

    vstd::seq_lib::lemma_multiset_commutative(seq![x], s);
    assert(seq![x] =~= Seq::<ItemView>::empty().push(x));
}

/// The limit applied to a new item in front of the list: the new item stays when the
/// limit allows any unpinned item, the rest are kept within the remaining budget.
proof fn lemma_limited_new_front(x: ItemView, s: Seq<ItemView>, max: nat)
    requires
        !x.pinned,
    ensures
        s.len() + 1 > max && max > 0 ==> limited(seq![x] + s, max) == seq![x] + keep_within(
            s,
            (max - 1) as nat,
        ),
        s.len() + 1 > max && max == 0 ==> limited(seq![x] + s, max) == keep_within(s, 0),
        s.len() + 1 <= max ==> limited(seq![x] + s, max) == seq![x] + s,
{
    let t = seq![x] + s;
    assert(t.drop_first() =~= s);
    assert(t[0] == x);
}

proof fn lemma_unpinned_count_le_len(s: Seq<ItemView>)
    ensures
        unpinned_count(s) <= s.len(),
    decreases s.len(),
{
    if s.len() > 0 {
        lemma_unpinned_count_le_len(s.drop_first());
    }
}

proof fn lemma_unpinned_count_keep(s: Seq<ItemView>, budget: nat)
    ensures
        unpinned_count(keep_within(s, budget)) <= budget,
{
    lemma_keep_within_props(s, budget);
}

proof fn lemma_unpinned_count_insert(s: Seq<ItemView>, p: int, x: ItemView)
    requires
        0 <= p <= s.len(),
    ensures
        unpinned_count(s.insert(p, x)) == unpinned_count(s) + if x.pinned {
            0nat
        } else {
            1nat
        },
    decreases s.len(),
{
    if p == 0 {
        assert(s.insert(p, x).drop_first() =~= s);
    } else {
        assert(s.insert(p, x).drop_first() =~= s.drop_first().insert(p - 1, x));
        lemma_unpinned_count_insert(s.drop_first(), p - 1, x);
    }
}

/// The number of unpinned items depends only on which items there are, not on their order.
proof fn lemma_unpinned_count_of_multiset(a: Seq<ItemView>, b: Seq<ItemView>)
    requires
        a.to_multiset() == b.to_multiset(),
    ensures
        unpinned_count(a) == unpinned_count(b),
    decreases a.len(),
{
    if a.len() == 0 {
        assert(b.to_multiset().len() == 0);
        assert(b.len() == 0);
    } else {
        let x = a[0];
        assert(a.contains(x));
        assert(b.to_multiset().count(x) > 0);
        assert(b.contains(x));
        let j = choose|j: int| 0 <= j < b.len() && b[j] == x;
        let rest = b.remove(j);
        assert(a.remove(0) =~= a.drop_first());
        assert(a.drop_first().to_multiset() == a.to_multiset().remove(x));
        assert(rest.to_multiset() == b.to_multiset().remove(x));
        lemma_unpinned_count_of_multiset(a.drop_first(), rest);
        assert(rest.insert(j, x) =~= b);
        lemma_unpinned_count_insert(rest, j, x);
    }
}

/// Adding content keeps the unpinned items within the limit when they were within
/// it: new content drops the oldest unpinned items beyond the limit, and content
/// already held only moves its item.
pub proof fn lemma_add_keeps_unpinned_within_limit(
    old_items: Seq<ItemView>,
    old_next: u64,
    new_items: Seq<ItemView>,
    new_next: u64,
    max_items: nat,
    content: ContentView,
    now: u128,
    source: Option<SourceView>,
    id: u64,
)
    requires
        unpinned_count(old_items) <= max_items,
        item_added(old_items, old_next, new_items, new_next, max_items, content, now, source, id),
    ensures
        unpinned_count(new_items) <= max_items,
{
    if holds_content(old_items, content) {
        let i = choose|i: int| 0 <= i < old_items.len() && old_items[i].content == content;
        lemma_touch_keeps_unpinned_count(old_items, i, now, new_items);
    }
}

/// Touching an item, wherever it then stands, keeps the number of unpinned items.
proof fn lemma_touch_keeps_unpinned_count(
    old_items: Seq<ItemView>,
    i: int,
    now: u128,
    new_items: Seq<ItemView>,
)
    requires
        0 <= i < old_items.len(),
        new_items.to_multiset() == old_items.update(i, touched(old_items[i], now)).to_multiset(),
    ensures
        unpinned_count(new_items) == unpinned_count(old_items),
{
    let t = touched(old_items[i], now);
    let u = old_items.update(i, t);
    lemma_unpinned_count_of_multiset(new_items, u);
    let rest = old_items.remove(i);
    assert(rest.insert(i, t) =~= u);
    assert(rest.insert(i, old_items[i]) =~= old_items);
    lemma_unpinned_count_insert(rest, i, t);
    lemma_unpinned_count_insert(rest, i, old_items[i]);
}

proof fn lemma_filter_keeps_wf(s: Seq<ItemView>, next: u64)
    requires
        in_list_order(s),
        unique_ids(s),
        unique_contents(s),
        forall|k: int| 0 <= k < s.len() ==> #[trigger] s[k].id < next,
    ensures
        in_list_order(pinned_only(s)),
        unique_ids(pinned_only(s)),
        unique_contents(pinned_only(s)),
        forall|k: int|
            0 <= k < pinned_only(s).len() ==> #[trigger] pinned_only(s)[k].id < next,
        forall|k: int|
            0 <= k < pinned_only(s).len() ==> exists|m: int|
                0 <= m < s.len() && #[trigger] pinned_only(s)[k] == s[m],
    decreases s.len(),
{
    let f = pinned_only(s);
    if s.len() > 0 {
        let d = s.drop_last();
        assert(in_list_order(d) && unique_ids(d) && unique_contents(d));
        assert(forall|k: int| 0 <= k < d.len() ==> d[k] == s[k]);
        lemma_filter_keeps_wf(d, next);
        let fd = pinned_only(d);
        reveal(Seq::filter);
        assert(f == if s.last().pinned {
            fd.push(s.last())
        } else {
            fd
        });
        assert forall|k: int| 0 <= k < fd.len() implies d.contains(#[trigger] fd[k]) by {
            let m = choose|m: int| 0 <= m < d.len() && fd[k] == d[m];
        }
        assert forall|k: int| 0 <= k < f.len() implies exists|m: int|
            0 <= m < s.len() && #[trigger] f[k] == s[m] by {
            if k < fd.len() {
                let m = choose|m: int| 0 <= m < d.len() && fd[k] == d[m];
                assert(f[k] == s[m]);
            } else {
                assert(f[k] == s[s.len() - 1]);
            }
        }
        if s.last().pinned {
            assert forall|a: int, b: int| 0 <= a < b < f.len() implies !listed_before(f[b], f[a]) by {
                if b == f.len() - 1 {
                    assert(d.contains(fd[a]));
                    let m = choose|m: int| 0 <= m < d.len() && d[m] == fd[a];
                    assert(f[a] == s[m]);
                } else {
                    assert(f[a] == fd[a] && f[b] == fd[b]);
                }
            }
            assert forall|a: int, b: int|
                0 <= a < f.len() && 0 <= b < f.len() && a != b implies f[a].id != f[b].id
                && f[a].content != f[b].content by {
                if b == f.len() - 1 {
                    assert(d.contains(fd[a]));
                    let m = choose|m: int| 0 <= m < d.len() && d[m] == fd[a];
                    assert(f[a] == s[m]);
                } else if a == f.len() - 1 {
                    assert(d.contains(fd[b]));
                    let m = choose|m: int| 0 <= m < d.len() && d[m] == fd[b];
                    assert(f[b] == s[m]);
                } else {
                    assert(f[a] == fd[a] && f[b] == fd[b]);
                }
            }
            assert forall|k: int| 0 <= k < f.len() implies #[trigger] f[k].id < next by {
                if k < f.len() - 1 {
                    assert(f[k] == fd[k]);
                }
            }
        }
    } else {
        reveal(Seq::filter);
    }
}

} // verus!
