//! Searching the history by preview text.
use crate::history::item_views;
use crate::text::{
    chars_of, find_chars, is_white_space, is_whitespace, occurs_at, occurs_at_exec, starts_with,
    ascii_lower, ascii_text, ascii_without_upper, contains, to_lowercase, trim, trim_text, unicode_lowercase,
};
use crate::types::{copy_string, ClipboardItem, ItemId, ItemView};
use unicode_normalization::UnicodeNormalization;
use vstd::prelude::*;

verus! {

#[derive(Debug, Clone, PartialEq, Eq)]
pub struct SearchMatch {
    pub item_id: ItemId,
    pub score: u32,
    pub preview_text: String,
}

/// The NFKC normal form of a text, as the unicode-normalization crate computes it.
pub uninterp spec fn nfkc_form(s: Seq<char>) -> Seq<char>;

/// `UnicodeNormalization::nfkc` collected into a string: the compatibility
/// composition normal form of the text, named `nfkc_form` here. Of the form itself
/// only this is stated: an ASCII text (the empty text among them) is already in it.
#[verifier::external_body]
fn nfkc(s: &str) -> (r: String)
    ensures
        r@ == nfkc_form(s@),
        (forall|i: int| 0 <= i < s@.len() ==> (#[trigger] s@[i] as u32) < 128) ==> r@ == s@,
{
    s.nfkc().collect::<String>()
}

/// The form in which texts are compared: NFKC, then lower case.
pub open spec fn normalized(s: Seq<char>) -> Seq<char> {
    unicode_lowercase(nfkc_form(s))
}

/// `i` starts a whitespace-separated word of `s`.
pub open spec fn word_start(s: Seq<char>, i: int) -> bool {
    &&& 0 <= i < s.len()
    &&& !is_white_space(s[i])
    &&& (i == 0 || is_white_space(s[i - 1]))
}

/// Some whitespace-separated word of `s` starts with `q` (`split_whitespace().any(starts_with)`).
pub open spec fn some_word_starts_with(s: Seq<char>, q: Seq<char>) -> bool {
    &&& forall|k: int| 0 <= k < q.len() ==> !is_white_space(#[trigger] q[k])
    &&& exists|i: int| word_start(s, i) && occurs_at(s, q, i)
}

/// The score of a normalized preview against a non-empty normalized query: none when
/// the query does not occur, 100 for a match at the start, 75 for a match at the start
/// of a word, 50 otherwise.
pub open spec fn match_score(p: Seq<char>, q: Seq<char>) -> Option<u32> {
    if !contains(p, q) {
        None
    } else if starts_with(p, q) {
        Some(100)
    } else if some_word_starts_with(p, q) {
        Some(75)
    } else {
        Some(50)
    }
}

/// A search result as (item id, score, preview text).
pub open spec fn match_view(m: SearchMatch) -> (u64, u32, Seq<char>) {
    (m.item_id.0, m.score, m.preview_text@)
}

/// The matches with the given score, in item order.
pub open spec fn with_score(items: Seq<ItemView>, q: Seq<char>, score: u32) -> Seq<
    (u64, u32, Seq<char>),
>
    decreases items.len(),
{
    if items.len() == 0 {
        Seq::empty()
    } else {
        let rest = with_score(items.drop_last(), q, score);
        let v = items.last();
        if match_score(normalized(v.preview_text), q) == Some(score) {
            rest.push((v.id, score, v.preview_text))
        } else {
            rest
        }
    }
}

/// The result of a search: every item with score 0 for a blank query; otherwise the
/// matching items by descending score, in item order within a score.
pub open spec fn search_result(items: Seq<ItemView>, query: Seq<char>) -> Seq<
    (u64, u32, Seq<char>),
> {
    let q = normalized(trim(query));
    if q.len() == 0 {
        items.map_values(|v: ItemView| (v.id, 0u32, v.preview_text))
    } else {
        with_score(items, q, 100) + with_score(items, q, 75) + with_score(items, q, 50)
    }
}

/// A text of ASCII characters without upper-case letters; normalizing keeps it.
pub open spec fn ascii_lower_text(s: Seq<char>) -> bool {
    forall|i: int| 0 <= i < s.len() ==> ascii_without_upper(#[trigger] s[i])
}

/// The normalized form of a text.
fn normalize_for_search(value: &str) -> (r: String)
    ensures
        r@ == normalized(value@),
        ascii_lower_text(value@) ==> r@ == value@,
        ascii_text(value@) ==> r@ == ascii_lower(value@),
{
    let n = nfkc(value);
    to_lowercase(n.as_str())
}

/// Whether some whitespace-separated word of `p` starts with `q`.
fn word_starts_with(p: &Vec<char>, q: &Vec<char>) -> (r: bool)
    ensures
        r == some_word_starts_with(p@, q@),
{
    let mut k: usize = 0;
    while k < q.len()
        invariant
            k <= q.len(),
            forall|m: int| 0 <= m < k ==> !is_white_space(#[trigger] q@[m]),
        decreases q.len() - k,
    {
        if is_whitespace(q[k]) {
            return false;
        }
        k = k + 1;
    }
    let mut i: usize = 0;
    while i < p.len()
        invariant
            i <= p.len(),
            forall|m: int| 0 <= m < q.len() ==> !is_white_space(#[trigger] q@[m]),
            forall|j: int| 0 <= j < i ==> !(word_start(p@, j) && occurs_at(p@, q@, j)),
        decreases p.len() - i,
    {
        let starts = !is_whitespace(p[i]) && (i == 0 || is_whitespace(p[i - 1]));
        if starts && occurs_at_exec(p, q, i) {
            assert(word_start(p@, i as int));
            return true;
        }
        i = i + 1;
    }
    false
}

/// The score of a normalized preview against a non-empty normalized query.
fn score_of(preview: &String, query: &Vec<char>) -> (r: Option<u32>)
    ensures
        r == match_score(preview@, query@),
{
    let p = chars_of(preview.as_str());
    match find_chars(&p, query) {
        None => None,
        Some(position) => {
            if position == 0 {
                Some(100)
            } else if word_starts_with(&p, query) {
                assert(!starts_with(p@, query@));
                Some(75)
            } else {
                Some(50)
            }
        },
    }
}

/// Searches the items' previews for the query.
pub fn search_items(items: &[ClipboardItem], query: &str) -> (r: Vec<SearchMatch>)
    ensures
        r@.map_values(|m: SearchMatch| match_view(m)) == search_result(item_views(items@), query@),
        ascii_lower_text(trim(query@)) ==> normalized(trim(query@)) == trim(query@),
        normalized(trim(query@)).len() > 0 ==> forall|j: int|
            0 <= j < items@.len() && ascii_lower_text(#[trigger] items@[j].preview_text@)
                ==> normalized(items@[j].preview_text@) == items@[j].preview_text@,
        ascii_text(trim(query@)) ==> normalized(trim(query@)) == ascii_lower(trim(query@)),
        normalized(trim(query@)).len() > 0 ==> forall|j: int|
            0 <= j < items@.len() && ascii_text(#[trigger] items@[j].preview_text@)
                ==> normalized(items@[j].preview_text@) == ascii_lower(items@[j].preview_text@),
{
    let ghost views = item_views(items@);
    let trimmed = trim_text(query);
    let normalized_query = normalize_for_search(trimmed.as_str());
    let q = chars_of(normalized_query.as_str());
    let mut out: Vec<SearchMatch> = Vec::new();
    if q.len() == 0 {
        let mut i: usize = 0;
        while i < items.len()
            invariant
                i <= items.len(),
                views == item_views(items@),
                out@.map_values(|m: SearchMatch| match_view(m)) == views.take(i as int).map_values(
                    |v: ItemView| (v.id, 0u32, v.preview_text),
                ),
            decreases items.len() - i,
        {
            let ghost before = out@;
            let m = SearchMatch {
                item_id: items[i].id,
                score: 0,
                preview_text: copy_string(&items[i].preview_text),
            };
            assert(match_view(m) == (views[i as int].id, 0u32, views[i as int].preview_text));
            out.push(m);
            assert(out@ == before.push(m));
            assert(out@.map_values(|m: SearchMatch| match_view(m)) =~= before.map_values(
                |m: SearchMatch| match_view(m),
            ).push(match_view(m)));
            assert(views.take(i + 1).map_values(|v: ItemView| (v.id, 0u32, v.preview_text))
                =~= views.take(i as int).map_values(|v: ItemView| (v.id, 0u32, v.preview_text)).push(
                (views[i as int].id, 0u32, views[i as int].preview_text),
            ));
            i = i + 1;
        }
        assert(views.take(items.len() as int) =~= views);
        return out;
    }
    let mut scores: Vec<Option<u32>> = Vec::new();
    let mut i: usize = 0;
    while i < items.len()
        invariant
            i <= items.len(),
            views == item_views(items@),
            scores.len() == i,
            forall|j: int|
                0 <= j < i ==> scores@[j] == match_score(normalized(views[j].preview_text), q@),
            forall|j: int|
                0 <= j < i && ascii_lower_text(#[trigger] items@[j].preview_text@) ==> normalized(
                    items@[j].preview_text@,
                ) == items@[j].preview_text@,
            forall|j: int|
                0 <= j < i && ascii_text(#[trigger] items@[j].preview_text@) ==> normalized(
                    items@[j].preview_text@,
                ) == ascii_lower(items@[j].preview_text@),
        decreases items.len() - i,
    {
        let np = normalize_for_search(items[i].preview_text.as_str());
        scores.push(score_of(&np, &q));
        i = i + 1;
    }
    let ghost mut target: Seq<(u64, u32, Seq<char>)> = Seq::empty();
    let levels: [u32; 3] = [100, 75, 50];
    let mut level: usize = 0;
    while level < 3
        invariant
            level <= 3,
            views == item_views(items@),
            scores.len() == items.len(),
            forall|j: int|
                0 <= j < items.len() ==> scores@[j] == match_score(
                    normalized(views[j].preview_text),
                    q@,
                ),
            levels@ == seq![100u32, 75u32, 50u32],
            out@.map_values(|m: SearchMatch| match_view(m)) == if level == 0 {
                Seq::<(u64, u32, Seq<char>)>::empty()
            } else if level == 1 {
                with_score(views, q@, 100)
            } else if level == 2 {
                with_score(views, q@, 100) + with_score(views, q@, 75)
            } else {
                with_score(views, q@, 100) + with_score(views, q@, 75) + with_score(views, q@, 50)
            },
        decreases 3 - level,
    {
        let score = levels[level];
        let ghost prefix = out@.map_values(|m: SearchMatch| match_view(m));
        let mut j: usize = 0;
        while j < items.len()
            invariant
                j <= items.len(),
                views == item_views(items@),
                scores.len() == items.len(),
                forall|k: int|
                    0 <= k < items.len() ==> scores@[k] == match_score(
                        normalized(views[k].preview_text),
                        q@,
                    ),
                out@.map_values(|m: SearchMatch| match_view(m)) == prefix + with_score(
                    views.take(j as int),
                    q@,
                    score,
                ),
            decreases items.len() - j,
        {
            assert(views.take(j + 1).drop_last() =~= views.take(j as int));
            assert(views.take(j + 1).last() == views[j as int]);
            let ghost before = out@;
            if scores[j] == Some(score) {
                let m = SearchMatch {
                    item_id: items[j].id,
                    score,
                    preview_text: copy_string(&items[j].preview_text),
                };
                assert(match_view(m) == (views[j as int].id, score, views[j as int].preview_text));
                out.push(m);
                assert(out@.map_values(|m: SearchMatch| match_view(m)) =~= before.map_values(
                    |m: SearchMatch| match_view(m),
                ).push(match_view(m)));
            }
            j = j + 1;
            assert(out@.map_values(|m: SearchMatch| match_view(m)) =~= prefix + with_score(
                views.take(j as int),
                q@,
                score,
            ));
        }
        assert(views.take(items.len() as int) =~= views);
        level = level + 1;
    }
    out
}

} // verus!
