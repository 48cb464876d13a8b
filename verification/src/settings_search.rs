//! Searching the catalog of settings by words.
use crate::text::{
    ascii_lower, chars_of, contains, is_white_space, is_whitespace, owned, push_char, push_str,
    starts_with, string_from_chars, to_ascii_lowercase, contains_text, starts_with_text,
};
use vstd::prelude::*;

verus! {

broadcast use vstd::seq_lib::group_to_multiset_ensures;

#[derive(Debug, Clone, Copy, PartialEq, Eq)]
pub struct SettingsSearchResult {
    pub key: &'static str,
    pub category_key: &'static str,
    pub title_key: &'static str,
    pub description_key: &'static str,
    pub search_terms: &'static str,
}

/// A catalog entry as texts.
pub struct CatalogEntryView {
    pub key: Seq<char>,
    pub category_key: Seq<char>,
    pub title_key: Seq<char>,
    pub description_key: Seq<char>,
    pub search_terms: Seq<char>,
}

pub open spec fn catalog_entry(
    key: Seq<char>,
    category_key: Seq<char>,
    title_key: Seq<char>,
    description_key: Seq<char>,
    search_terms: Seq<char>,
) -> CatalogEntryView {
    CatalogEntryView { key, category_key, title_key, description_key, search_terms }
}

impl SettingsSearchResult {
    pub open spec fn view_entry(self) -> CatalogEntryView {
        CatalogEntryView {
            key: self.key@,
            category_key: self.category_key@,
            title_key: self.title_key@,
            description_key: self.description_key@,
            search_terms: self.search_terms@,
        }
    }
}

pub open spec fn entry_views(s: Seq<SettingsSearchResult>) -> Seq<CatalogEntryView> {
    s.map_values(|e: SettingsSearchResult| e.view_entry())
}

/// The whitespace-separated words of a text (`str::split_whitespace`).
pub open spec fn words(s: Seq<char>) -> Seq<Seq<char>>
    decreases s.len(),
{
    if s.len() == 0 {
        Seq::empty()
    } else {
        let w = words(s.drop_last());
        let c = s.last();
        if is_white_space(c) {
            w
        } else if s.len() >= 2 && !is_white_space(s[s.len() - 2]) {
            w.update(w.len() - 1, w.last().push(c))
        } else {
            w.push(seq![c])
        }
    }
}

/// The search tokens of a query: its words, ASCII lower-cased.
pub open spec fn query_tokens(query: Seq<char>) -> Seq<Seq<char>> {
    words(query).map_values(|w: Seq<char>| ascii_lower(w))
}

/// Every token occurs in the entry's key followed by its search terms.
pub open spec fn entry_matches(e: CatalogEntryView, tokens: Seq<Seq<char>>) -> bool {
    forall|t: int|
        0 <= t < tokens.len() ==> contains(
            ascii_lower(e.key + seq![' '] + e.search_terms),
            #[trigger] tokens[t],
        )
}

/// 0 when a token starts the title key, 1 when one starts the category key, 2 otherwise.
pub open spec fn entry_score(e: CatalogEntryView, tokens: Seq<Seq<char>>) -> u8 {
    if exists|t: int| 0 <= t < tokens.len() && starts_with(ascii_lower(e.title_key), #[trigger] tokens[t]) {
        0
    } else if exists|t: int|
        0 <= t < tokens.len() && starts_with(ascii_lower(e.category_key), #[trigger] tokens[t]) {
        1
    } else {
        2
    }
}

/// Lexicographic order of texts by character (the order of `str`).
pub open spec fn lex_le(a: Seq<char>, b: Seq<char>) -> bool
    decreases a.len(),
{
    if a.len() == 0 {
        true
    } else if b.len() == 0 {
        false
    } else if a[0] != b[0] {
        (a[0] as int) < (b[0] as int)
    } else {
        lex_le(a.drop_first(), b.drop_first())
    }
}

/// Ordered by score, then by title key.
pub open spec fn ranked_le(a: (u8, CatalogEntryView), b: (u8, CatalogEntryView)) -> bool {
    a.0 < b.0 || (a.0 == b.0 && lex_le(a.1.title_key, b.1.title_key))
}

pub open spec fn ranked_sorted(s: Seq<(u8, CatalogEntryView)>) -> bool {
    forall|i: int, j: int| 0 <= i < j < s.len() ==> ranked_le(s[i], s[j])
}

/// The matching entries with their scores, in catalog order.
pub open spec fn scored_matches(entries: Seq<CatalogEntryView>, tokens: Seq<Seq<char>>) -> Seq<
    (u8, CatalogEntryView),
>
    decreases entries.len(),
{
    if entries.len() == 0 {
        Seq::empty()
    } else {
        let p = scored_matches(entries.drop_last(), tokens);
        let e = entries.last();
        if entry_matches(e, tokens) {
            p.push((entry_score(e, tokens), e))
        } else {
            p
        }
    }
}

/// Each entry paired with its score.
pub open spec fn with_scores(entries: Seq<CatalogEntryView>, tokens: Seq<Seq<char>>) -> Seq<
    (u8, CatalogEntryView),
> {
    Seq::new(entries.len(), |i: int| (entry_score(entries[i], tokens), entries[i]))
}

proof fn lemma_lex_total(a: Seq<char>, b: Seq<char>)
    ensures
        lex_le(a, b) || lex_le(b, a),
    decreases a.len(),
{
    if a.len() > 0 && b.len() > 0 {
        if a[0] == b[0] {
            lemma_lex_total(a.drop_first(), b.drop_first());
        } else {
            assert((a[0] as int) != (b[0] as int));
        }
    }
}

proof fn lemma_lex_trans(a: Seq<char>, b: Seq<char>, c: Seq<char>)
    requires
        lex_le(a, b),
        lex_le(b, c),
    ensures
        lex_le(a, c),
    decreases a.len(),
{
    if a.len() > 0 && b.len() > 0 && c.len() > 0 && a[0] == b[0] && b[0] == c[0] {
        lemma_lex_trans(a.drop_first(), b.drop_first(), c.drop_first());
    }
}

/// Whether `a` is ordered no later than `b`.
fn lex_le_exec(a: &str, b: &str) -> (r: bool)
    ensures
        r == lex_le(a@, b@),
{
    let va = chars_of(a);
    let vb = chars_of(b);
    let mut i: usize = 0;
    assert(va@.skip(0) =~= va@);
    assert(vb@.skip(0) =~= vb@);
    while i < va.len() && i < vb.len() && va[i] == vb[i]
        invariant
            i <= va.len(),
            i <= vb.len(),
            lex_le(a@, b@) == lex_le(va@.skip(i as int), vb@.skip(i as int)),
            va@ == a@,
            vb@ == b@,
        decreases va.len() - i,
    {
        assert(va@.skip(i as int).drop_first() =~= va@.skip(i + 1));
        assert(vb@.skip(i as int).drop_first() =~= vb@.skip(i + 1));
        i = i + 1;
    }
    if i == va.len() {
        true
    } else if i == vb.len() {
        false
    } else {
        assert(va@.skip(i as int)[0] == va@[i as int]);
        assert(vb@.skip(i as int)[0] == vb@[i as int]);
        va[i] < vb[i]
    }
}

/// The whitespace-separated words of a text.
fn split_words(s: &str) -> (r: Vec<String>)
    ensures
        r@.map_values(|w: String| w@) == words(s@),
{
    let cs = chars_of(s);
    let mut out: Vec<String> = Vec::new();
    let mut i: usize = 0;
    while i < cs.len()
        invariant
            i <= cs.len(),
            cs@ == s@,
            out@.map_values(|w: String| w@) == words(cs@.take(i as int)),
            i > 0 && !is_white_space(cs@[i - 1]) ==> out.len() > 0,
        decreases cs.len() - i,
    {
        let ghost before = out@.map_values(|w: String| w@);
        assert(cs@.take(i + 1).drop_last() =~= cs@.take(i as int));
        assert(cs@.take(i + 1).last() == cs@[i as int]);
        let c = cs[i];
        if is_whitespace(c) {
        } else if i >= 1 && !is_whitespace(cs[i - 1]) {
            assert(cs@.take(i + 1)[i - 1] == cs@[i - 1]);
            let mut w = out.pop().unwrap();
            push_char(&mut w, c);
            out.push(w);
            assert(out@.map_values(|w: String| w@) =~= before.update(
                before.len() - 1,
                before.last().push(c),
            ));
        } else {
            let mut w = String::new();
            push_char(&mut w, c);
            out.push(w);
            assert(out@.map_values(|w: String| w@) =~= before.push(seq![c]));
        }
        i = i + 1;
    }
    assert(cs@.take(cs.len() as int) =~= cs@);
    out
}

/// Whether scored entry `a` ranks no later than `b`.
fn ranked_before(a: &(u8, SettingsSearchResult), b: &(u8, SettingsSearchResult)) -> (r: bool)
    ensures
        r == ranked_le((a.0, a.1.view_entry()), (b.0, b.1.view_entry())),
{
    a.0 < b.0 || (a.0 == b.0 && lex_le_exec(a.1.title_key, b.1.title_key))
}

/// Inserts a scored entry at its place in rank order.
fn insert_ranked(v: &mut Vec<(u8, SettingsSearchResult)>, x: (u8, SettingsSearchResult))
    requires
        ranked_sorted(old(v)@.map_values(|p: (u8, SettingsSearchResult)| (p.0, p.1.view_entry()))),
    ensures
        ranked_sorted(final(v)@.map_values(|p: (u8, SettingsSearchResult)| (p.0, p.1.view_entry()))),
        exists|p: int| 0 <= p <= old(v)@.len() && final(v)@ == old(v)@.insert(p, x),
{
    let ghost s = v@.map_values(|p: (u8, SettingsSearchResult)| (p.0, p.1.view_entry()));
    let ghost xv = (x.0, x.1.view_entry());
    let mut p: usize = 0;
    while p < v.len()
        invariant_except_break
            xv == (x.0, x.1.view_entry()),
            p <= v.len(),
            s == v@.map_values(|p: (u8, SettingsSearchResult)| (p.0, p.1.view_entry())),
            forall|k: int| 0 <= k < p ==> ranked_le(#[trigger] s[k], xv),
        ensures
            p <= v.len(),
            s == v@.map_values(|p: (u8, SettingsSearchResult)| (p.0, p.1.view_entry())),
            forall|k: int| 0 <= k < p ==> ranked_le(#[trigger] s[k], xv),
            p < v.len() ==> !ranked_le(s[p as int], xv),
        decreases v.len() - p,
    {
        let before = ranked_before(&v[p], &x);
        assert(s[p as int] == (v@[p as int].0, v@[p as int].1.view_entry()));
        if !before {
            break;
        }
        p = p + 1;
    }
    v.insert(p, x);
    let ghost t = v@.map_values(|p: (u8, SettingsSearchResult)| (p.0, p.1.view_entry()));
    assert(t =~= s.insert(p as int, xv));
    assert forall|i: int, j: int| 0 <= i < j < t.len() implies ranked_le(t[i], t[j]) by {
        if j < p {
            assert(t[i] == s[i] && t[j] == s[j]);
        } else if j == p {
            assert(t[i] == s[i]);
        } else if i < p {
            assert(t[i] == s[i] && t[j] == s[j - 1]);
            assert(ranked_le(s[i], s[j - 1]));
        } else if i == p {
            assert(t[j] == s[j - 1]);
            assert(!ranked_le(s[p as int], xv));
            lemma_lex_total(s[p as int].1.title_key, xv.1.title_key);
            assert(ranked_le(xv, s[p as int]));
            if j - 1 > p {
                assert(ranked_le(s[p as int], s[j - 1]));
                if xv.0 == s[p as int].0 && s[p as int].0 == s[j - 1].0 {
                    lemma_lex_trans(xv.1.title_key, s[p as int].1.title_key, s[j - 1].1.title_key);
                }
            }
        } else {
            assert(t[i] == s[i - 1] && t[j] == s[j - 1]);
        }
    }
}

/// The settings catalog.
pub open spec fn settings_catalog_view() -> Seq<CatalogEntryView> {
    seq![
        catalog_entry("history_limit"@, "settings.history_limit.category"@, "settings.history_limit.title"@, "settings.history_limit.description"@, "history limit maximum number unpinned clipboard items keeps"@),
        catalog_entry("max_item_bytes"@, "settings.max_item_bytes.category"@, "settings.max_item_bytes.title"@, "settings.max_item_bytes.description"@, "history maximum item size skip large clipboard entries responsive"@),
        catalog_entry("clipboard_check_interval_ms"@, "settings.clipboard_check_interval_ms.category"@, "settings.clipboard_check_interval_ms.title"@, "settings.clipboard_check_interval_ms.description"@, "history clipboard check interval polling frequency events"@),
        catalog_entry("paste_automatically"@, "settings.paste_automatically.category"@, "settings.paste_automatically.title"@, "settings.paste_automatically.description"@, "paste automatically selected history item focused app permissions"@),
        catalog_entry("launch_at_login"@, "settings.launch_at_login.category"@, "settings.launch_at_login.title"@, "settings.launch_at_login.description"@, "startup launch login start automatically signing in"@),
        catalog_entry("show_footer"@, "settings.show_footer.category"@, "settings.show_footer.title"@, "settings.show_footer.description"@, "appearance show hide footer actions history popup"@),
        catalog_entry("show_tray_or_menu_icon"@, "settings.show_tray_or_menu_icon.category"@, "settings.show_tray_or_menu_icon.title"@, "settings.show_tray_or_menu_icon.description"@, "appearance show tray menu icon desktop shell entry point"@),
        catalog_entry("appearance"@, "settings.appearance.category"@, "settings.appearance.title"@, "settings.appearance.description"@, "appearance theme system light dark"@),
        catalog_entry("shortcuts.open_history"@, "settings.shortcuts.open_history.category"@, "settings.shortcuts.open_history.title"@, "settings.shortcuts.open_history.description"@, "shortcuts open history global shortcut clipboard popup"@),
        catalog_entry("shortcuts.paste_selected"@, "settings.shortcuts.paste_selected.category"@, "settings.shortcuts.paste_selected.title"@, "settings.shortcuts.paste_selected.description"@, "shortcuts paste selected item"@),
        catalog_entry("shortcuts.paste_without_formatting"@, "settings.shortcuts.paste_without_formatting.category"@, "settings.shortcuts.paste_without_formatting.title"@, "settings.shortcuts.paste_without_formatting.description"@, "shortcuts paste without formatting plain text rich clipboard content"@),
        catalog_entry("shortcuts.delete_selected"@, "settings.shortcuts.delete_selected.category"@, "settings.shortcuts.delete_selected.title"@, "settings.shortcuts.delete_selected.description"@, "shortcuts delete selected remove item history"@),
        catalog_entry("shortcuts.pin_selected"@, "settings.shortcuts.pin_selected.category"@, "settings.shortcuts.pin_selected.title"@, "settings.shortcuts.pin_selected.description"@, "shortcuts pin unpin selected item"@),
        catalog_entry("shortcuts.clear_unpinned"@, "settings.shortcuts.clear_unpinned.category"@, "settings.shortcuts.clear_unpinned.title"@, "settings.shortcuts.clear_unpinned.description"@, "shortcuts clear unpinned regular history keeping pinned items"@),
        catalog_entry("shortcuts.clear_all"@, "settings.shortcuts.clear_all.category"@, "settings.shortcuts.clear_all.title"@, "settings.shortcuts.clear_all.description"@, "shortcuts clear all full clipboard history"@),
        catalog_entry("shortcuts.open_preferences"@, "settings.shortcuts.open_preferences.category"@, "settings.shortcuts.open_preferences.title"@, "settings.shortcuts.open_preferences.description"@, "shortcuts open preferences"@),
        catalog_entry("ignored_clipboard_types"@, "settings.ignored_clipboard_types.category"@, "settings.ignored_clipboard_types.title"@, "settings.ignored_clipboard_types.description"@, "privacy ignored clipboard types formats never saved"@),
        catalog_entry("ignored_applications"@, "settings.ignored_applications.category"@, "settings.ignored_applications.title"@, "settings.ignored_applications.description"@, "privacy ignored applications apps clipboard changes ignored supported"@),
        catalog_entry("ignored_content_patterns"@, "settings.ignored_content_patterns.category"@, "settings.ignored_content_patterns.title"@, "settings.ignored_content_patterns.description"@, "privacy ignored content patterns text sensitive content"@),
    ]
}

/// The settings catalog, in catalog order.
fn settings_catalog() -> (r: Vec<SettingsSearchResult>)
    ensures
        r@.map_values(|e: SettingsSearchResult| e.view_entry()) == settings_catalog_view(),
{
    let r = vec![
        SettingsSearchResult {
            key: "history_limit",
            category_key: "settings.history_limit.category",
            title_key: "settings.history_limit.title",
            description_key: "settings.history_limit.description",
            search_terms: "history limit maximum number unpinned clipboard items keeps",
        },
        SettingsSearchResult {
            key: "max_item_bytes",
            category_key: "settings.max_item_bytes.category",
            title_key: "settings.max_item_bytes.title",
            description_key: "settings.max_item_bytes.description",
            search_terms: "history maximum item size skip large clipboard entries responsive",
        },
        SettingsSearchResult {
            key: "clipboard_check_interval_ms",
            category_key: "settings.clipboard_check_interval_ms.category",
            title_key: "settings.clipboard_check_interval_ms.title",
            description_key: "settings.clipboard_check_interval_ms.description",
            search_terms: "history clipboard check interval polling frequency events",
        },
        SettingsSearchResult {
            key: "paste_automatically",
            category_key: "settings.paste_automatically.category",
            title_key: "settings.paste_automatically.title",
            description_key: "settings.paste_automatically.description",
            search_terms: "paste automatically selected history item focused app permissions",
        },
        SettingsSearchResult {
            key: "launch_at_login",
            category_key: "settings.launch_at_login.category",
            title_key: "settings.launch_at_login.title",
            description_key: "settings.launch_at_login.description",
            search_terms: "startup launch login start automatically signing in",
        },
        SettingsSearchResult {
            key: "show_footer",
            category_key: "settings.show_footer.category",
            title_key: "settings.show_footer.title",
            description_key: "settings.show_footer.description",
            search_terms: "appearance show hide footer actions history popup",
        },
        SettingsSearchResult {
            key: "show_tray_or_menu_icon",
            category_key: "settings.show_tray_or_menu_icon.category",
            title_key: "settings.show_tray_or_menu_icon.title",
            description_key: "settings.show_tray_or_menu_icon.description",
            search_terms: "appearance show tray menu icon desktop shell entry point",
        },
        SettingsSearchResult {
            key: "appearance",
            category_key: "settings.appearance.category",
            title_key: "settings.appearance.title",
            description_key: "settings.appearance.description",
            search_terms: "appearance theme system light dark",
        },
        SettingsSearchResult {
            key: "shortcuts.open_history",
            category_key: "settings.shortcuts.open_history.category",
            title_key: "settings.shortcuts.open_history.title",
            description_key: "settings.shortcuts.open_history.description",
            search_terms: "shortcuts open history global shortcut clipboard popup",
        },
        SettingsSearchResult {
            key: "shortcuts.paste_selected",
            category_key: "settings.shortcuts.paste_selected.category",
            title_key: "settings.shortcuts.paste_selected.title",
            description_key: "settings.shortcuts.paste_selected.description",
            search_terms: "shortcuts paste selected item",
        },
        SettingsSearchResult {
            key: "shortcuts.paste_without_formatting",
            category_key: "settings.shortcuts.paste_without_formatting.category",
            title_key: "settings.shortcuts.paste_without_formatting.title",
            description_key: "settings.shortcuts.paste_without_formatting.description",
            search_terms: "shortcuts paste without formatting plain text rich clipboard content",
        },
        SettingsSearchResult {
            key: "shortcuts.delete_selected",
            category_key: "settings.shortcuts.delete_selected.category",
            title_key: "settings.shortcuts.delete_selected.title",
            description_key: "settings.shortcuts.delete_selected.description",
            search_terms: "shortcuts delete selected remove item history",
        },
        SettingsSearchResult {
            key: "shortcuts.pin_selected",
            category_key: "settings.shortcuts.pin_selected.category",
            title_key: "settings.shortcuts.pin_selected.title",
            description_key: "settings.shortcuts.pin_selected.description",
            search_terms: "shortcuts pin unpin selected item",
        },
        SettingsSearchResult {
            key: "shortcuts.clear_unpinned",
            category_key: "settings.shortcuts.clear_unpinned.category",
            title_key: "settings.shortcuts.clear_unpinned.title",
            description_key: "settings.shortcuts.clear_unpinned.description",
            search_terms: "shortcuts clear unpinned regular history keeping pinned items",
        },
        SettingsSearchResult {
            key: "shortcuts.clear_all",
            category_key: "settings.shortcuts.clear_all.category",
            title_key: "settings.shortcuts.clear_all.title",
            description_key: "settings.shortcuts.clear_all.description",
            search_terms: "shortcuts clear all full clipboard history",
        },
        SettingsSearchResult {
            key: "shortcuts.open_preferences",
            category_key: "settings.shortcuts.open_preferences.category",
            title_key: "settings.shortcuts.open_preferences.title",
            description_key: "settings.shortcuts.open_preferences.description",
            search_terms: "shortcuts open preferences",
        },
        SettingsSearchResult {
            key: "ignored_clipboard_types",
            category_key: "settings.ignored_clipboard_types.category",
            title_key: "settings.ignored_clipboard_types.title",
            description_key: "settings.ignored_clipboard_types.description",
            search_terms: "privacy ignored clipboard types formats never saved",
        },
        SettingsSearchResult {
            key: "ignored_applications",
            category_key: "settings.ignored_applications.category",
            title_key: "settings.ignored_applications.title",
            description_key: "settings.ignored_applications.description",
            search_terms: "privacy ignored applications apps clipboard changes ignored supported",
        },
        SettingsSearchResult {
            key: "ignored_content_patterns",
            category_key: "settings.ignored_content_patterns.category",
            title_key: "settings.ignored_content_patterns.title",
            description_key: "settings.ignored_content_patterns.description",
            search_terms: "privacy ignored content patterns text sensitive content",
        },
    ];
    assert(r@.map_values(|e: SettingsSearchResult| e.view_entry()) =~= settings_catalog_view());
    r
}


/// The catalog entries matching the query, best first: entries whose title key starts
/// with a query word, then those whose category key does, then the rest, each group
/// ordered by title key. A blank query returns the whole catalog in catalog order.
pub fn search_settings(query: &str) -> (r: Vec<SettingsSearchResult>)
    ensures
        query_tokens(query@).len() == 0 ==> entry_views(r@) == settings_catalog_view(),
        query_tokens(query@).len() > 0 ==> {
            let got = with_scores(entry_views(r@), query_tokens(query@));
            &&& ranked_sorted(got)
            &&& got.to_multiset() == scored_matches(
                settings_catalog_view(),
                query_tokens(query@),
            ).to_multiset()
        },
{
    let raw_words = split_words(query);
    let mut tokens: Vec<String> = Vec::new();
    let mut i: usize = 0;
    while i < raw_words.len()
        invariant
            i <= raw_words.len(),
            raw_words@.map_values(|w: String| w@) == words(query@),
            tokens.len() == i,
            forall|k: int| 0 <= k < i ==> #[trigger] tokens@[k]@ == ascii_lower(raw_words@[k]@),
        decreases raw_words.len() - i,
    {
        tokens.push(to_ascii_lowercase(raw_words[i].as_str()));
        i = i + 1;
    }
    let ghost tv = query_tokens(query@);
    assert(tv.len() == tokens.len());
    assert forall|k: int| 0 <= k < tokens.len() implies #[trigger] tokens@[k]@ == tv[k] by {
        assert(raw_words@.map_values(|w: String| w@)[k] == raw_words@[k]@);
    }
    let catalog = settings_catalog();
    if tokens.len() == 0 {
        return catalog;
    }
    let ghost cv = settings_catalog_view();
    let mut ranked: Vec<(u8, SettingsSearchResult)> = Vec::new();
    let mut e: usize = 0;
    while e < catalog.len()
        invariant
            e <= catalog.len(),
            entry_views(catalog@) == cv,
            tokens.len() == tv.len(),
            forall|k: int| 0 <= k < tokens.len() ==> #[trigger] tokens@[k]@ == tv[k],
            ranked_sorted(ranked@.map_values(|p: (u8, SettingsSearchResult)| (p.0, p.1.view_entry()))),
            forall|k: int|
                0 <= k < ranked.len() ==> (#[trigger] ranked@[k]).0 == entry_score(
                    ranked@[k].1.view_entry(),
                    tv,
                ),
            ranked@.map_values(|p: (u8, SettingsSearchResult)| (p.0, p.1.view_entry())).to_multiset()
                == scored_matches(cv.take(e as int), tv).to_multiset(),
        decreases catalog.len() - e,
    {
        let entry = catalog[e];
        let ghost ev = entry.view_entry();
        assert(cv.take(e + 1).drop_last() =~= cv.take(e as int));
        assert(cv.take(e + 1).last() == ev);
        let mut haystack = owned(entry.key);
        push_char(&mut haystack, ' ');
        push_str(&mut haystack, entry.search_terms);
        let haystack = to_ascii_lowercase(haystack.as_str());
        assert(haystack@ == ascii_lower(ev.key + seq![' '] + ev.search_terms));
        let mut all = true;
        let mut t: usize = 0;
        while t < tokens.len()
            invariant
                t <= tokens.len(),
                tokens.len() == tv.len(),
                forall|k: int| 0 <= k < tokens.len() ==> #[trigger] tokens@[k]@ == tv[k],
                haystack@ == ascii_lower(ev.key + seq![' '] + ev.search_terms),
                all == forall|k: int| 0 <= k < t ==> contains(haystack@, #[trigger] tv[k]),
            decreases tokens.len() - t,
        {
            if !contains_text(haystack.as_str(), tokens[t].as_str()) {
                all = false;
            }
            t = t + 1;
        }
        assert(all == entry_matches(ev, tv));
        if all {
            let title = to_ascii_lowercase(entry.title_key);
            let category = to_ascii_lowercase(entry.category_key);
            let mut title_hit = false;
            let mut category_hit = false;
            let mut t: usize = 0;
            while t < tokens.len()
                invariant
                    t <= tokens.len(),
                    tokens.len() == tv.len(),
                    forall|k: int| 0 <= k < tokens.len() ==> #[trigger] tokens@[k]@ == tv[k],
                    title@ == ascii_lower(ev.title_key),
                    category@ == ascii_lower(ev.category_key),
                    title_hit == exists|k: int| 0 <= k < t && starts_with(title@, #[trigger] tv[k]),
                    category_hit == exists|k: int|
                        0 <= k < t && starts_with(category@, #[trigger] tv[k]),
                decreases tokens.len() - t,
            {
                if starts_with_text(title.as_str(), tokens[t].as_str()) {
                    title_hit = true;
                }
                if starts_with_text(category.as_str(), tokens[t].as_str()) {
                    category_hit = true;
                }
                t = t + 1;
            }
            let score: u8 = if title_hit {
                0
            } else if category_hit {
                1
            } else {
                2
            };
            assert(score == entry_score(ev, tv));
            let ghost before = ranked@;
            insert_ranked(&mut ranked, (score, entry));
            proof {
                let p = choose|p: int| 0 <= p <= before.len() && ranked@ == before.insert(p, (score, entry));
                let f = |q: (u8, SettingsSearchResult)| (q.0, q.1.view_entry());
                assert(ranked@.map_values(f) =~= before.map_values(f).insert(p, (score, ev)));
                assert(scored_matches(cv.take(e + 1), tv) == scored_matches(cv.take(e as int), tv).push((score, ev)));
                assert forall|k: int| 0 <= k < ranked.len() implies (#[trigger] ranked@[k]).0 == entry_score(
                    ranked@[k].1.view_entry(),
                    tv,
                ) by {
                    if k < p {
                        assert(ranked@[k] == before[k]);
                    } else if k > p {
                        assert(ranked@[k] == before[k - 1]);
                    }
                }
            }
        }
        e = e + 1;
    }
    assert(cv.take(catalog.len() as int) =~= cv);
    let mut out: Vec<SettingsSearchResult> = Vec::new();
    let mut k: usize = 0;
    while k < ranked.len()
        invariant
            k <= ranked.len(),
            out.len() == k,
            forall|j: int| 0 <= j < k ==> out@[j] == ranked@[j].1,
            forall|j: int|
                0 <= j < ranked.len() ==> (#[trigger] ranked@[j]).0 == entry_score(
                    ranked@[j].1.view_entry(),
                    tv,
                ),
        decreases ranked.len() - k,
    {
        out.push(ranked[k].1);
        k = k + 1;
    }
    proof {
        let got = with_scores(entry_views(out@), tv);
        assert(got =~= ranked@.map_values(|p: (u8, SettingsSearchResult)| (p.0, p.1.view_entry())));
    }
    out
}

} // verus!
