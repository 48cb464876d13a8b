//! Clipboard items, their contents and the text previews derived from them.
use crate::text::{
    decimal, decimal_string, join, join_strings, owned, push_char, push_decimal, push_str,
};
use vstd::prelude::*;
use vstd::string::*;
use vstd::utf8::encode_utf8;

verus! {

/// Characters kept in an item's list preview.
pub const PREVIEW_TEXT_LIMIT: usize = 512;

/// Characters kept in an item's full preview.
pub const FULL_PREVIEW_TEXT_LIMIT: usize = 8192;

#[derive(Debug, Clone, Copy, PartialEq, Eq, Structural, Hash, PartialOrd, Ord)]
pub struct ItemId(pub u64);

#[derive(Debug, Clone, Copy, PartialEq, Eq, Structural, Hash, PartialOrd, Ord)]
pub struct TimestampMillis(pub u128);

/// `SystemTime` from std, carried through opaquely.
#[verifier::external_type_specification]
#[verifier::external_body]
pub struct ExSystemTime(std::time::SystemTime);

/// `SystemTime::now`: the current time of the system clock; nothing is known of it.
#[verifier::external_body]
fn system_time_now() -> std::time::SystemTime {
    std::time::SystemTime::now()
}

/// The time from the Unix epoch to a system time, as `SystemTime::duration_since`
/// reports it; `None` for a time before the epoch. A function of the time alone.
pub uninterp spec fn unix_duration(t: std::time::SystemTime) -> Option<std::time::Duration>;

/// The whole milliseconds of a duration, as `Duration::as_millis` counts them.
pub uninterp spec fn duration_millis(d: std::time::Duration) -> u128;

/// `SystemTime::duration_since(UNIX_EPOCH)`, its error (a time before the epoch)
/// given as `None`; the result is named `unix_duration`.
#[verifier::external_body]
fn since_unix_epoch(value: &std::time::SystemTime) -> (r: Option<std::time::Duration>)
    ensures
        r == unix_duration(*value),
{
    match value.duration_since(std::time::UNIX_EPOCH) {
        Ok(d) => Some(d),
        Err(_) => None,
    }
}

/// `Duration::as_millis`: the whole milliseconds of the duration, named `duration_millis`.
#[verifier::external_body]
fn as_millis(d: &std::time::Duration) -> (r: u128)
    ensures
        r == duration_millis(*d),
{
    d.as_millis()
}

/// The milliseconds since the Unix epoch of a system time; zero for a time before it.
pub open spec fn unix_millis(t: std::time::SystemTime) -> u128 {
    match unix_duration(t) {
        Some(d) => duration_millis(d),
        None => 0,
    }
}

impl TimestampMillis {
    /// The current time.
    pub fn now() -> (r: Self) {
        Self::from_system_time(system_time_now())
    }

    /// The milliseconds since the Unix epoch of a system time (zero before it: the
    /// default duration is zero).
    pub fn from_system_time(value: std::time::SystemTime) -> (r: Self)
        ensures
            r.0 == unix_millis(value),
    {
        match since_unix_epoch(&value) {
            Some(d) => Self(as_millis(&d)),
            None => Self(0),
        }
    }
}

#[derive(Debug, Clone, PartialEq, Eq)]
pub struct ClipboardSource {
    pub application_name: Option<String>,
    pub bundle_or_process_id: Option<String>,
}

#[derive(Debug, Clone, PartialEq, Eq)]
pub enum ClipboardContent {
    Text { text: String },
    RichText { plain_text: String, rtf: Option<Vec<u8>>, html: Option<String> },
    Html { plain_text: String, html: String },
    Image { bytes: Vec<u8>, mime_type: String, width: Option<u32>, height: Option<u32> },
    Files { paths: Vec<String> },
    Url { url: String, title: Option<String> },
    Unsupported { format_names: Vec<String> },
}

#[derive(Debug, Clone, Copy, PartialEq, Eq, Structural)]
pub enum ContentKind {
    Text,
    RichText,
    Html,
    Image,
    Files,
    Url,
    Unsupported,
}

#[derive(Debug, Clone, PartialEq, Eq)]
pub struct BoundedText {
    pub text: String,
    pub truncated: bool,
}

#[derive(Debug, Clone, PartialEq, Eq)]
pub struct ClipboardItem {
    pub id: ItemId,
    pub created_at: TimestampMillis,
    pub last_used_at: TimestampMillis,
    pub content: ClipboardContent,
    pub content_kind: ContentKind,
    pub content_kind_key: String,
    pub preview_text: String,
    pub preview_truncated: bool,
    pub pinned: bool,
    pub pinned_shortcut: Option<char>,
    pub source: Option<ClipboardSource>,
}

// ---------------------------------------------------------------------------
// Mathematical model
// ---------------------------------------------------------------------------

/// The view of an optional text.
pub open spec fn opt_text(o: Option<String>) -> Option<Seq<char>> {
    match o {
        Some(s) => Some(s@),
        None => None,
    }
}

/// The views of a list of texts.
pub open spec fn texts(v: Seq<String>) -> Seq<Seq<char>> {
    v.map_values(|s: String| s@)
}

/// Number of bytes of the UTF-8 encoding of a text (`str::len`).
pub open spec fn utf8_len(s: Seq<char>) -> nat {
    encode_utf8(s).len()
}

/// `str::len`: the length of the text in bytes, that is of its UTF-8 encoding.
/// The contract adds to vstd's that this length is itself a `usize`, as the
/// documentation of `str::len` states.
#[verifier::external_body]
pub(crate) fn byte_len(s: &str) -> (r: usize)
    ensures
        r == utf8_len(s@),
{
    s.len()
}

/// The UTF-8 length of a text that exists is a `usize`.
pub(crate) fn text_size_is_addressable(text: &String)
    ensures
        utf8_len(text@) <= usize::MAX,
{
    let _ = byte_len(text.as_str());
}

/// Total UTF-8 length of a list of texts.
pub open spec fn utf8_len_sum(parts: Seq<Seq<char>>) -> nat
    decreases parts.len(),
{
    if parts.len() == 0 {
        0
    } else {
        utf8_len_sum(parts.drop_last()) + utf8_len(parts.last())
    }
}

pub open spec fn opt_utf8_len(o: Option<Seq<char>>) -> nat {
    match o {
        Some(s) => utf8_len(s),
        None => 0,
    }
}

pub enum SourceView {
    Source { application_name: Option<Seq<char>>, bundle_or_process_id: Option<Seq<char>> },
}

impl View for ClipboardSource {
    type V = SourceView;

    open spec fn view(&self) -> SourceView {
        SourceView::Source {
            application_name: opt_text(self.application_name),
            bundle_or_process_id: opt_text(self.bundle_or_process_id),
        }
    }
}

pub open spec fn opt_source(o: Option<ClipboardSource>) -> Option<SourceView> {
    match o {
        Some(s) => Some(s@),
        None => None,
    }
}

/// What a clipboard content holds, as mathematical values.
pub enum ContentView {
    Text { text: Seq<char> },
    RichText { plain_text: Seq<char>, rtf: Option<Seq<u8>>, html: Option<Seq<char>> },
    Html { plain_text: Seq<char>, html: Seq<char> },
    Image { bytes: Seq<u8>, mime_type: Seq<char>, width: Option<u32>, height: Option<u32> },
    Files { paths: Seq<Seq<char>> },
    Url { url: Seq<char>, title: Option<Seq<char>> },
    Unsupported { format_names: Seq<Seq<char>> },
}

impl View for ClipboardContent {
    type V = ContentView;

    open spec fn view(&self) -> ContentView {
        match self {
            ClipboardContent::Text { text } => ContentView::Text { text: text@ },
            ClipboardContent::RichText { plain_text, rtf, html } => ContentView::RichText {
                plain_text: plain_text@,
                rtf: match rtf {
                    Some(b) => Some(b@),
                    None => None,
                },
                html: opt_text(*html),
            },
            ClipboardContent::Html { plain_text, html } => ContentView::Html {
                plain_text: plain_text@,
                html: html@,
            },
            ClipboardContent::Image { bytes, mime_type, width, height } => ContentView::Image {
                bytes: bytes@,
                mime_type: mime_type@,
                width: *width,
                height: *height,
            },
            ClipboardContent::Files { paths } => ContentView::Files { paths: texts(paths@) },
            ClipboardContent::Url { url, title } => ContentView::Url {
                url: url@,
                title: opt_text(*title),
            },
            ClipboardContent::Unsupported { format_names } => ContentView::Unsupported {
                format_names: texts(format_names@),
            },
        }
    }
}

/// The localization key of a content kind.
pub open spec fn kind_key(k: ContentKind) -> Seq<char> {
    match k {
        ContentKind::Text => "content.kind.text"@,
        ContentKind::RichText => "content.kind.rich_text"@,
        ContentKind::Html => "content.kind.html"@,
        ContentKind::Image => "content.kind.image"@,
        ContentKind::Files => "content.kind.files"@,
        ContentKind::Url => "content.kind.url"@,
        ContentKind::Unsupported => "content.kind.unsupported"@,
    }
}

/// A text cut to at most `max` characters; longer texts end in "..." when `max > 3`.
pub open spec fn bounded(value: Seq<char>, max: nat) -> (Seq<char>, bool) {
    if value.len() <= max {
        (value, false)
    } else if max <= 3 {
        (value.take(max as int), true)
    } else {
        (value.take(max - 3) + seq!['.', '.', '.'], true)
    }
}

/// A bounded text never exceeds its limit, is marked truncated exactly when the
/// value was longer, and otherwise is the value itself; a cut text keeps the value's
/// beginning.
pub proof fn lemma_bounded_within_limit(value: Seq<char>, max: nat)
    ensures
        bounded(value, max).0.len() <= max,
        bounded(value, max).1 <==> value.len() > max,
        !bounded(value, max).1 ==> bounded(value, max).0 == value,
        bounded(value, max).1 && max > 3 ==> bounded(value, max).0.take(max - 3) == value.take(
            max - 3,
        ),
{
    if value.len() > max && max > 3 {
        assert(bounded(value, max).0.take(max - 3) =~= value.take(max - 3));
    }
}

impl ContentView {
    pub open spec fn kind(self) -> ContentKind {
        match self {
            ContentView::Text { .. } => ContentKind::Text,
            ContentView::RichText { .. } => ContentKind::RichText,
            ContentView::Html { .. } => ContentKind::Html,
            ContentView::Image { .. } => ContentKind::Image,
            ContentView::Files { .. } => ContentKind::Files,
            ContentView::Url { .. } => ContentKind::Url,
            ContentView::Unsupported { .. } => ContentKind::Unsupported,
        }
    }

    /// The one-line preview shown in lists.
    pub open spec fn preview(self) -> Seq<char> {
        match self {
            ContentView::Text { text } => text,
            ContentView::RichText { plain_text, .. } => plain_text,
            ContentView::Html { plain_text, .. } => plain_text,
            ContentView::Image { mime_type, width, height, .. } => match (width, height) {
                (Some(w), Some(h)) => mime_type + seq![',', ' '] + decimal(w as nat) + seq!['x']
                    + decimal(h as nat),
                _ => mime_type,
            },
            ContentView::Files { paths } => join(paths, seq!['\n']),
            ContentView::Url { url, title } => match title {
                Some(t) => t + seq!['\n'] + url,
                None => url,
            },
            ContentView::Unsupported { format_names } => join(format_names, seq![',', ' ']),
        }
    }

    /// The text of the full preview: HTML where the content carries it.
    pub open spec fn full_preview(self) -> Seq<char> {
        match self {
            ContentView::RichText { plain_text, html, .. } => match html {
                Some(h) => h,
                None => plain_text,
            },
            ContentView::Html { html, .. } => html,
            _ => self.preview(),
        }
    }

    /// The text pasted when formatting is dropped.
    pub open spec fn plain_text_for_paste(self) -> Seq<char> {
        match self {
            ContentView::Text { text } => text,
            ContentView::RichText { plain_text, .. } => plain_text,
            ContentView::Html { plain_text, .. } => plain_text,
            ContentView::Url { url, .. } => url,
            ContentView::Files { paths } => join(paths, seq!['\n']),
            ContentView::Image { .. } => self.preview(),
            ContentView::Unsupported { .. } => Seq::empty(),
        }
    }

    /// The approximate size in bytes: UTF-8 lengths of texts and lengths of byte payloads.
    pub open spec fn size(self) -> nat {
        match self {
            ContentView::Text { text } => utf8_len(text),
            ContentView::RichText { plain_text, rtf, html } => utf8_len(plain_text) + match rtf {
                Some(b) => b.len(),
                None => 0nat,
            } + opt_utf8_len(html),
            ContentView::Html { plain_text, html } => utf8_len(plain_text) + utf8_len(html),
            ContentView::Image { bytes, .. } => bytes.len(),
            ContentView::Files { paths } => utf8_len_sum(paths),
            ContentView::Url { url, title } => utf8_len(url) + opt_utf8_len(title),
            ContentView::Unsupported { format_names } => utf8_len_sum(format_names),
        }
    }
}

/// The view of an item.
pub struct ItemView {
    pub id: u64,
    pub created_at: u128,
    pub last_used_at: u128,
    pub content: ContentView,
    pub content_kind: ContentKind,
    pub content_kind_key: Seq<char>,
    pub preview_text: Seq<char>,
    pub preview_truncated: bool,
    pub pinned: bool,
    pub pinned_shortcut: Option<char>,
    pub source: Option<SourceView>,
}

impl View for ClipboardItem {
    type V = ItemView;

    open spec fn view(&self) -> ItemView {
        ItemView {
            id: self.id.0,
            created_at: self.created_at.0,
            last_used_at: self.last_used_at.0,
            content: self.content@,
            content_kind: self.content_kind,
            content_kind_key: self.content_kind_key@,
            preview_text: self.preview_text@,
            preview_truncated: self.preview_truncated,
            pinned: self.pinned,
            pinned_shortcut: self.pinned_shortcut,
            source: opt_source(self.source),
        }
    }
}

/// The item that `ClipboardItem::new` makes.
pub open spec fn new_item_view(
    id: u64,
    content: ContentView,
    created_at: u128,
    source: Option<SourceView>,
) -> ItemView {
    ItemView {
        id,
        created_at,
        last_used_at: created_at,
        content,
        content_kind: content.kind(),
        content_kind_key: kind_key(content.kind()),
        preview_text: bounded(content.preview(), PREVIEW_TEXT_LIMIT as nat).0,
        preview_truncated: bounded(content.preview(), PREVIEW_TEXT_LIMIT as nat).1,
        pinned: false,
        pinned_shortcut: None,
        source,
    }
}

// ---------------------------------------------------------------------------
// Copies with a stated result
// ---------------------------------------------------------------------------

/// A copy of a text.
pub fn copy_string(s: &String) -> (r: String)
    ensures
        r@ == s@,
{
    owned(s.as_str())
}

/// A copy of an optional text.
pub fn copy_opt_string(s: &Option<String>) -> (r: Option<String>)
    ensures
        opt_text(r) == opt_text(*s),
{
    match s {
        Some(t) => Some(copy_string(t)),
        None => None,
    }
}

/// A copy of a list of texts.
pub fn copy_strings(v: &Vec<String>) -> (r: Vec<String>)
    ensures
        texts(r@) == texts(v@),
{
    let mut out: Vec<String> = Vec::new();
    let mut i: usize = 0;
    while i < v.len()
        invariant
            i <= v.len(),
            out.len() == i,
            forall|j: int| 0 <= j < i ==> out@[j]@ == v@[j]@,
        decreases v.len() - i,
    {
        out.push(copy_string(&v[i]));
        i = i + 1;
    }
    assert(texts(out@) =~= texts(v@));
    out
}

/// A copy of a byte list.
pub fn copy_bytes(v: &Vec<u8>) -> (r: Vec<u8>)
    ensures
        r@ == v@,
{
    let mut out: Vec<u8> = Vec::new();
    let mut i: usize = 0;
    while i < v.len()
        invariant
            i <= v.len(),
            out@ == v@.take(i as int),
        decreases v.len() - i,
    {
        out.push(v[i]);
        i = i + 1;
        assert(out@ =~= v@.take(i as int));
    }
    assert(v@.take(v.len() as int) =~= v@);
    out
}

/// Whether two texts are equal.
pub fn string_eq(a: &String, b: &String) -> (r: bool)
    ensures
        r == (a@ == b@),
{
    crate::text::text_eq(a.as_str(), b.as_str())
}

/// Whether two optional texts are equal.
pub fn opt_string_eq(a: &Option<String>, b: &Option<String>) -> (r: bool)
    ensures
        r == (opt_text(*a) == opt_text(*b)),
{
    match (a, b) {
        (Some(x), Some(y)) => string_eq(x, y),
        (None, None) => true,
        _ => false,
    }
}

/// Whether two byte lists are equal.
pub fn bytes_eq(a: &Vec<u8>, b: &Vec<u8>) -> (r: bool)
    ensures
        r == (a@ == b@),
{
    if a.len() != b.len() {
        return false;
    }
    let mut i: usize = 0;
    while i < a.len()
        invariant
            a.len() == b.len(),
            i <= a.len(),
            forall|j: int| 0 <= j < i ==> a@[j] == b@[j],
        decreases a.len() - i,
    {
        if a[i] != b[i] {
            return false;
        }
        i = i + 1;
    }
    assert(a@ =~= b@);
    true
}

/// Whether two lists of texts are equal.
pub fn strings_eq(a: &Vec<String>, b: &Vec<String>) -> (r: bool)
    ensures
        r == (texts(a@) == texts(b@)),
{
    if a.len() != b.len() {
        assert(texts(a@).len() != texts(b@).len());
        return false;
    }
    let mut i: usize = 0;
    while i < a.len()
        invariant
            a.len() == b.len(),
            i <= a.len(),
            forall|j: int| 0 <= j < i ==> a@[j]@ == b@[j]@,
        decreases a.len() - i,
    {
        if !string_eq(&a[i], &b[i]) {
            assert(texts(a@)[i as int] != texts(b@)[i as int]);
            return false;
        }
        i = i + 1;
    }
    assert(texts(a@) =~= texts(b@));
    true
}

impl ClipboardSource {
    /// A copy of the source with the same view.
    pub fn duplicate(&self) -> (r: Self)
        ensures
            r@ == self@,
    {
        ClipboardSource {
            application_name: copy_opt_string(&self.application_name),
            bundle_or_process_id: copy_opt_string(&self.bundle_or_process_id),
        }
    }
}

impl ClipboardContent {
    /// A copy of the content with the same view.
    pub fn duplicate(&self) -> (r: Self)
        ensures
            r@ == self@,
    {
        match self {
            ClipboardContent::Text { text } => ClipboardContent::Text { text: copy_string(text) },
            ClipboardContent::RichText { plain_text, rtf, html } => ClipboardContent::RichText {
                plain_text: copy_string(plain_text),
                rtf: match rtf {
                    Some(b) => Some(copy_bytes(b)),
                    None => None,
                },
                html: copy_opt_string(html),
            },
            ClipboardContent::Html { plain_text, html } => ClipboardContent::Html {
                plain_text: copy_string(plain_text),
                html: copy_string(html),
            },
            ClipboardContent::Image { bytes, mime_type, width, height } => ClipboardContent::Image {
                bytes: copy_bytes(bytes),
                mime_type: copy_string(mime_type),
                width: *width,
                height: *height,
            },
            ClipboardContent::Files { paths } => ClipboardContent::Files {
                paths: copy_strings(paths),
            },
            ClipboardContent::Url { url, title } => ClipboardContent::Url {
                url: copy_string(url),
                title: copy_opt_string(title),
            },
            ClipboardContent::Unsupported { format_names } => ClipboardContent::Unsupported {
                format_names: copy_strings(format_names),
            },
        }
    }

    /// Whether two contents are equal field by field (the derived `==`).
    pub fn same_as(&self, other: &Self) -> (r: bool)
        ensures
            r == (self@ == other@),
    {
        match (self, other) {
            (ClipboardContent::Text { text: a }, ClipboardContent::Text { text: b }) => string_eq(
                a,
                b,
            ),
            (
                ClipboardContent::RichText { plain_text: p1, rtf: r1, html: h1 },
                ClipboardContent::RichText { plain_text: p2, rtf: r2, html: h2 },
            ) => {
                let rtf_eq = match (r1, r2) {
                    (Some(x), Some(y)) => bytes_eq(x, y),
                    (None, None) => true,
                    _ => false,
                };
                string_eq(p1, p2) && rtf_eq && opt_string_eq(h1, h2)
            },
            (
                ClipboardContent::Html { plain_text: p1, html: h1 },
                ClipboardContent::Html { plain_text: p2, html: h2 },
            ) => string_eq(p1, p2) && string_eq(h1, h2),
            (
                ClipboardContent::Image { bytes: b1, mime_type: m1, width: w1, height: h1 },
                ClipboardContent::Image { bytes: b2, mime_type: m2, width: w2, height: h2 },
            ) => bytes_eq(b1, b2) && string_eq(m1, m2) && *w1 == *w2 && *h1 == *h2,
            (ClipboardContent::Files { paths: a }, ClipboardContent::Files { paths: b }) =>
                strings_eq(a, b),
            (
                ClipboardContent::Url { url: u1, title: t1 },
                ClipboardContent::Url { url: u2, title: t2 },
            ) => string_eq(u1, u2) && opt_string_eq(t1, t2),
            (
                ClipboardContent::Unsupported { format_names: a },
                ClipboardContent::Unsupported { format_names: b },
            ) => strings_eq(a, b),
            _ => false,
        }
    }

    /// The kind of the content.
    pub fn kind(&self) -> (r: ContentKind)
        ensures
            r == self@.kind(),
    {
        match self {
            ClipboardContent::Text { .. } => ContentKind::Text,
            ClipboardContent::RichText { .. } => ContentKind::RichText,
            ClipboardContent::Html { .. } => ContentKind::Html,
            ClipboardContent::Image { .. } => ContentKind::Image,
            ClipboardContent::Files { .. } => ContentKind::Files,
            ClipboardContent::Url { .. } => ContentKind::Url,
            ClipboardContent::Unsupported { .. } => ContentKind::Unsupported,
        }
    }

    /// The one-line preview of the content.
    pub fn preview_text(&self) -> (r: String)
        ensures
            r@ == self@.preview(),
    {
        proof {
            reveal_strlit("\n");
            reveal_strlit(", ");
        }
        match self {
            ClipboardContent::Text { text } => copy_string(text),
            ClipboardContent::RichText { plain_text, .. } => copy_string(plain_text),
            ClipboardContent::Html { plain_text, .. } => copy_string(plain_text),
            ClipboardContent::Image { mime_type, width, height, .. } => match (width, height) {
                (Some(w), Some(h)) => {
                    let mut s = copy_string(mime_type);
                    push_char(&mut s, ',');
                    push_char(&mut s, ' ');
                    push_decimal(&mut s, *w as u128);
                    push_char(&mut s, 'x');
                    push_decimal(&mut s, *h as u128);
                    assert(s@ =~= self@.preview());
                    s
                },
                _ => copy_string(mime_type),
            },
            ClipboardContent::Files { paths } => {
                let s = join_strings(paths, "\n");
                assert("\n"@ =~= seq!['\n']);
                s
            },
            ClipboardContent::Url { url, title } => match title {
                Some(t) => {
                    let mut s = copy_string(t);
                    push_char(&mut s, '\n');
                    push_str(&mut s, url.as_str());
                    assert(s@ =~= self@.preview());
                    s
                },
                None => copy_string(url),
            },
            ClipboardContent::Unsupported { format_names } => {
                let s = join_strings(format_names, ", ");
                assert(", "@ =~= seq![',', ' ']);
                s
            },
        }
    }

    /// The list preview cut to `PREVIEW_TEXT_LIMIT` characters.
    pub fn bounded_preview_text(&self) -> (r: BoundedText)
        ensures
            (r.text@, r.truncated) == bounded(self@.preview(), PREVIEW_TEXT_LIMIT as nat),
    {
        BoundedText::new(self.preview_text(), PREVIEW_TEXT_LIMIT)
    }

    /// The text of the full preview: HTML where the content carries it.
    pub fn full_preview_text(&self) -> (r: String)
        ensures
            r@ == self@.full_preview(),
    {
        match self {
            ClipboardContent::RichText { plain_text, html, .. } => match html {
                Some(h) => copy_string(h),
                None => copy_string(plain_text),
            },
            ClipboardContent::Html { html, .. } => copy_string(html),
            _ => self.preview_text(),
        }
    }

    /// The full preview cut to `FULL_PREVIEW_TEXT_LIMIT` characters.
    pub fn bounded_full_preview_text(&self) -> (r: BoundedText)
        ensures
            (r.text@, r.truncated) == bounded(self@.full_preview(), FULL_PREVIEW_TEXT_LIMIT as nat),
    {
        BoundedText::new(self.full_preview_text(), FULL_PREVIEW_TEXT_LIMIT)
    }

    /// The text pasted when formatting is dropped.
    pub fn plain_text_for_paste(&self) -> (r: String)
        ensures
            r@ == self@.plain_text_for_paste(),
    {
        proof {
            reveal_strlit("\n");
        }
        match self {
            ClipboardContent::Text { text } => copy_string(text),
            ClipboardContent::RichText { plain_text, .. } => copy_string(plain_text),
            ClipboardContent::Html { plain_text, .. } => copy_string(plain_text),
            ClipboardContent::Url { url, .. } => copy_string(url),
            ClipboardContent::Files { paths } => {
                let s = join_strings(paths, "\n");
                assert("\n"@ =~= seq!['\n']);
                s
            },
            ClipboardContent::Image { .. } => self.preview_text(),
            ClipboardContent::Unsupported { .. } => String::new(),
        }
    }

    /// The approximate size in bytes, if it fits in a `usize`.
    pub fn checked_size(&self) -> (r: Option<usize>)
        ensures
            r == (if self@.size() <= usize::MAX {
                Some(self@.size() as usize)
            } else {
                None::<usize>
            }),
    {
        match self {
            ClipboardContent::Text { text } => Some(byte_len(text.as_str())),
            ClipboardContent::RichText { plain_text, rtf, html } => {
                let a = byte_len(plain_text.as_str());
                let b = match rtf {
                    Some(v) => v.len(),
                    None => 0,
                };
                let c = match html {
                    Some(h) => byte_len(h.as_str()),
                    None => 0,
                };
                match a.checked_add(b) {
                    Some(ab) => ab.checked_add(c),
                    None => None,
                }
            },
            ClipboardContent::Html { plain_text, html } => byte_len(plain_text.as_str()).checked_add(
                byte_len(html.as_str()),
            ),
            ClipboardContent::Image { bytes, .. } => Some(bytes.len()),
            ClipboardContent::Files { paths } => checked_sum_utf8_lens(paths),
            ClipboardContent::Url { url, title } => {
                let t = match title {
                    Some(x) => byte_len(x.as_str()),
                    None => 0,
                };
                byte_len(url.as_str()).checked_add(t)
            },
            ClipboardContent::Unsupported { format_names } => checked_sum_utf8_lens(format_names),
        }
    }

    /// The approximate size in bytes.
    pub fn approximate_size_bytes(&self) -> (r: usize)
        requires
            self@.size() <= usize::MAX,
        ensures
            r == self@.size(),
    {
        match self {
            ClipboardContent::Text { text } => text.as_str().len(),
            ClipboardContent::RichText { plain_text, rtf, html } => {
                let a = plain_text.as_str().len();
                let b = match rtf {
                    Some(v) => v.len(),
                    None => 0,
                };
                let c = match html {
                    Some(h) => h.as_str().len(),
                    None => 0,
                };
                a + b + c
            },
            ClipboardContent::Html { plain_text, html } => plain_text.as_str().len()
                + html.as_str().len(),
            ClipboardContent::Image { bytes, .. } => bytes.len(),
            ClipboardContent::Files { paths } => sum_utf8_lens(paths),
            ClipboardContent::Url { url, title } => {
                let t = match title {
                    Some(x) => x.as_str().len(),
                    None => 0,
                };
                url.as_str().len() + t
            },
            ClipboardContent::Unsupported { format_names } => sum_utf8_lens(format_names),
        }
    }
}

/// The total UTF-8 length of a list of texts, if it fits in a `usize`.
fn checked_sum_utf8_lens(v: &Vec<String>) -> (r: Option<usize>)
    ensures
        r == (if utf8_len_sum(texts(v@)) <= usize::MAX {
            Some(utf8_len_sum(texts(v@)) as usize)
        } else {
            None::<usize>
        }),
{
    let mut total: usize = 0;
    let mut i: usize = 0;
    while i < v.len()
        invariant
            i <= v.len(),
            total == utf8_len_sum(texts(v@.take(i as int))),
        decreases v.len() - i,
    {
        proof {
            assert(texts(v@.take(i + 1)) =~= texts(v@).take(i + 1));
            assert(texts(v@.take(i + 1)).drop_last() =~= texts(v@.take(i as int)));
            assert(texts(v@.take(i + 1)).last() == v@[i as int]@);
            lemma_utf8_len_sum_prefix(texts(v@), i + 1);
            assert(texts(v@.take(i as int)) =~= texts(v@).take(i as int));
        }
        match total.checked_add(byte_len(v[i].as_str())) {
            Some(t) => {
                total = t;
            },
            None => {
                return None;
            },
        }
        i = i + 1;
    }
    assert(v@.take(v.len() as int) =~= v@);
    Some(total)
}

/// The total UTF-8 length of a list of texts.
fn sum_utf8_lens(v: &Vec<String>) -> (r: usize)
    requires
        utf8_len_sum(texts(v@)) <= usize::MAX,
    ensures
        r == utf8_len_sum(texts(v@)),
{
    let mut total: usize = 0;
    let mut i: usize = 0;
    while i < v.len()
        invariant
            i <= v.len(),
            utf8_len_sum(texts(v@)) <= usize::MAX,
            total == utf8_len_sum(texts(v@.take(i as int))),
        decreases v.len() - i,
    {
        proof {
            assert(texts(v@.take(i + 1)) =~= texts(v@).take(i + 1));
            assert(texts(v@.take(i + 1)).drop_last() =~= texts(v@.take(i as int)));
            assert(texts(v@.take(i + 1)).last() == v@[i as int]@);
            lemma_utf8_len_sum_prefix(texts(v@), i + 1);
        }
        total = total + v[i].as_str().len();
        i = i + 1;
    }
    assert(v@.take(v.len() as int) =~= v@);
    total
}

/// A prefix never has a larger total length.
proof fn lemma_utf8_len_sum_prefix(parts: Seq<Seq<char>>, k: int)
    requires
        0 <= k <= parts.len(),
    ensures
        utf8_len_sum(parts.take(k)) <= utf8_len_sum(parts),
    decreases parts.len(),
{
    if k < parts.len() {
        assert(parts.drop_last().take(k) =~= parts.take(k));
        lemma_utf8_len_sum_prefix(parts.drop_last(), k);
    } else {
        assert(parts.take(k) =~= parts);
    }
}

impl BoundedText {
    /// The text cut to at most `max_chars` characters, marked when it was cut.
    pub fn new(value: String, max_chars: usize) -> (r: Self)
        ensures
            (r.text@, r.truncated) == bounded(value@, max_chars as nat),
    {
        let count = value.as_str().unicode_len();
        if count <= max_chars {
            return BoundedText { text: value, truncated: false };
        }
        if max_chars <= 3 {
            let text = owned(value.as_str().substring_char(0, max_chars));
            BoundedText { text, truncated: true }
        } else {
            let mut text = owned(value.as_str().substring_char(0, max_chars - 3));
            push_char(&mut text, '.');
            push_char(&mut text, '.');
            push_char(&mut text, '.');
            assert(text@ =~= value@.take(max_chars - 3) + seq!['.', '.', '.']);
            BoundedText { text, truncated: true }
        }
    }
}

impl ContentKind {
    /// The localization key of the kind.
    pub fn localization_key(self) -> (r: &'static str)
        ensures
            r@ == kind_key(self),
    {
        match self {
            ContentKind::Text => "content.kind.text",
            ContentKind::RichText => "content.kind.rich_text",
            ContentKind::Html => "content.kind.html",
            ContentKind::Image => "content.kind.image",
            ContentKind::Files => "content.kind.files",
            ContentKind::Url => "content.kind.url",
            ContentKind::Unsupported => "content.kind.unsupported",
        }
    }
}

impl ClipboardItem {
    /// A copy of the item with the same view.
    pub fn duplicate(&self) -> (r: Self)
        ensures
            r@ == self@,
    {
        ClipboardItem {
            id: self.id,
            created_at: self.created_at,
            last_used_at: self.last_used_at,
            content: self.content.duplicate(),
            content_kind: self.content_kind,
            content_kind_key: copy_string(&self.content_kind_key),
            preview_text: copy_string(&self.preview_text),
            preview_truncated: self.preview_truncated,
            pinned: self.pinned,
            pinned_shortcut: self.pinned_shortcut,
            source: match &self.source {
                Some(s) => Some(s.duplicate()),
                None => None,
            },
        }
    }

    /// A new, unpinned item whose list preview is derived from its content.
    pub fn new(
        id: ItemId,
        content: ClipboardContent,
        created_at: TimestampMillis,
        source: Option<ClipboardSource>,
    ) -> (r: Self)
        ensures
            r@ == new_item_view(id.0, content@, created_at.0, opt_source(source)),
            r.content == content,
            r.source == source,
    {
        let content_kind = content.kind();
        let bounded_preview = content.bounded_preview_text();
        ClipboardItem {
            id,
            created_at,
            last_used_at: created_at,
            content,
            content_kind,
            content_kind_key: owned(content_kind.localization_key()),
            preview_text: bounded_preview.text,
            preview_truncated: bounded_preview.truncated,
            pinned: false,
            pinned_shortcut: None,
            source,
        }
    }
}

} // verus!
