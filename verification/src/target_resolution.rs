//! Finding the interaction target of a page region from its id and text.

use vstd::prelude::*;
use crate::chars::{char_is_whitespace, collect_chars, is_unicode_white_space, str_eq, string_push};

verus! {

pub open spec fn paragraph_region_kind() -> Seq<char> {
    seq!['p', 'a', 'r', 'a', 'g', 'r', 'a', 'p', 'h', '-', 'r', 'e', 'g', 'i', 'o', 'n']
}

pub open spec fn list_item_region_kind() -> Seq<char> {
    seq!['l', 'i', 's', 't', '-', 'i', 't', 'e', 'm', '-', 'r', 'e', 'g', 'i', 'o', 'n']
}

/// Only paragraph and list item regions have text targets.
pub fn is_supported_region_kind(kind: &str) -> (b: bool)
    ensures
        b == (kind@ == paragraph_region_kind() || kind@ == list_item_region_kind()),
{
    proof {
        reveal_strlit("paragraph-region");
        reveal_strlit("list-item-region");
        assert("paragraph-region"@ =~= paragraph_region_kind());
        assert("list-item-region"@ =~= list_item_region_kind());
    }
    str_eq(kind, "paragraph-region") || str_eq(kind, "list-item-region")
}

/// The comparison key of a text: whitespace removed, full-width colons
/// (U+FF1A) turned into ASCII colons.
pub open spec fn target_text_key(text: Seq<char>) -> Seq<char>
    decreases text.len(),
{
    if text.len() == 0 {
        Seq::empty()
    } else {
        let before = target_text_key(text.drop_last());
        let c = text.last();
        if is_unicode_white_space(c) {
            before
        } else if c == '\u{FF1A}' {
            before.push(':')
        } else {
            before.push(c)
        }
    }
}

/// The comparison key of `value` (see `target_text_key`). Trimming the result
/// is implied: no whitespace is left in it.
pub fn normalize_target_text(value: &str) -> (key: String)
    ensures
        key@ == target_text_key(value@),
{
    let chars = collect_chars(value);
    let mut key = String::new();
    let mut i: usize = 0;
    while i < chars.len()
        invariant
            i <= chars.len(),
            key@ == target_text_key(chars@.take(i as int)),
        decreases chars.len() - i,
    {
        let ch = chars[i];
        assert(chars@.take(i + 1).drop_last() =~= chars@.take(i as int));
        if char_is_whitespace(ch) {
        } else if ch == '\u{FF1A}' {
            string_push(&mut key, ':');
        } else {
            string_push(&mut key, ch);
        }
        i = i + 1;
    }
    assert(chars@.take(chars.len() as int) =~= chars@);
    key
}

/// What the region lookup reads of an interaction target.
pub struct RegionTextTarget {
    pub page_index: u16,
    pub region_id: String,
    pub text: String,
}

/// The first index in `[from, targets.len())` whose target satisfies `pred`.
pub open spec fn first_index_from(
    targets: Seq<RegionTextTarget>,
    pred: spec_fn(RegionTextTarget) -> bool,
    from: int,
) -> Option<int>
    decreases targets.len() - from,
{
    if from < 0 || from >= targets.len() {
        None
    } else if pred(targets[from]) {
        Some(from)
    } else {
        first_index_from(targets, pred, from + 1)
    }
}

pub open spec fn count_from(
    targets: Seq<RegionTextTarget>,
    pred: spec_fn(RegionTextTarget) -> bool,
    from: int,
) -> int
    decreases targets.len() - from,
{
    if from < 0 || from >= targets.len() {
        0
    } else {
        count_from(targets, pred, from + 1) + if pred(targets[from]) {
            1int
        } else {
            0int
        }
    }
}

pub open spec fn in_region(page_index: u16, region_id: Seq<char>) -> spec_fn(RegionTextTarget) -> bool {
    |t: RegionTextTarget| t.page_index == page_index && t.region_id@ == region_id
}

pub open spec fn region_text_matches(page_index: u16, region_id: Seq<char>, key: Seq<char>) -> spec_fn(
    RegionTextTarget,
) -> bool {
    |t: RegionTextTarget|
        t.page_index == page_index && t.region_id@ == region_id && target_text_key(t.text@) == key
}

pub open spec fn page_text_matches(page_index: u16, key: Seq<char>) -> spec_fn(RegionTextTarget) -> bool {
    |t: RegionTextTarget| t.page_index == page_index && target_text_key(t.text@) == key
}

/// The index chosen by the lookup: among the targets of the page, first a
/// target of the region whose text key matches; else the region's only
/// target if it has exactly one; else any target of the page whose text key
/// matches.
pub open spec fn spec_resolve_region_text_target(
    targets: Seq<RegionTextTarget>,
    page_index: u16,
    region_id: Seq<char>,
    original_text: Seq<char>,
) -> Option<int> {
    let key = target_text_key(original_text);
    let in_region = in_region(page_index, region_id);
    let region_text = region_text_matches(page_index, region_id, key);
    let page_text = page_text_matches(page_index, key);
    match first_index_from(targets, region_text, 0) {
        Some(i) => Some(i),
        None => if count_from(targets, in_region, 0) == 1 {
            first_index_from(targets, in_region, 0)
        } else {
            first_index_from(targets, page_text, 0)
        },
    }
}

proof fn lemma_first_index_step(
    targets: Seq<RegionTextTarget>,
    pred: spec_fn(RegionTextTarget) -> bool,
    i: int,
)
    requires
        0 <= i < targets.len(),
        !pred(targets[i]),
    ensures
        first_index_from(targets, pred, i) == first_index_from(targets, pred, i + 1),
{
}

/// Index into `targets` of the target for a region (see
/// `spec_resolve_region_text_target`).
pub fn resolve_region_text_target(
    targets: &Vec<RegionTextTarget>,
    page_index: u16,
    region_id: &str,
    original_text: &str,
) -> (found: Option<usize>)
    ensures
        match found {
            Some(i) => spec_resolve_region_text_target(
                targets@,
                page_index,
                region_id@,
                original_text@,
            ) == Some(i as int),
            None => spec_resolve_region_text_target(
                targets@,
                page_index,
                region_id@,
                original_text@,
            ) is None,
        },
{
    let ghost key = target_text_key(original_text@);
    let ghost region_members = in_region(page_index, region_id@);
    let ghost region_text = region_text_matches(page_index, region_id@, key);
    let ghost page_text = page_text_matches(page_index, key);
    let original_key = normalize_target_text(original_text);
    let n = targets.len();
    // Pass 1: a target of the region whose key matches; count region targets.
    let mut region_count: usize = 0;
    let mut region_first: Option<usize> = None;
    let mut i: usize = 0;
    while i < n
        invariant
            n == targets.len(),
            i <= n,
            original_key@ == key,
            key == target_text_key(original_text@),
            region_members == in_region(page_index, region_id@),
            region_text == region_text_matches(page_index, region_id@, key),
            region_count <= i,
            first_index_from(targets@, region_text, 0) == first_index_from(
                targets@,
                region_text,
                i as int,
            ),
            count_from(targets@, region_members, 0) == region_count + count_from(
                targets@,
                region_members,
                i as int,
            ),
            match region_first {
                Some(k) => first_index_from(targets@, region_members, 0) == Some(k as int),
                None => region_count == 0 && first_index_from(targets@, region_members, 0)
                    == first_index_from(targets@, region_members, i as int),
            },
        decreases n - i,
    {
        let t = &targets[i];
        let same_region = t.page_index == page_index && str_eq(t.region_id.as_str(), region_id);
        if same_region {
            let text_key = normalize_target_text(t.text.as_str());
            if str_eq(text_key.as_str(), original_key.as_str()) {
                assert(region_text(targets@[i as int]));
                return Some(i);
            }
            assert(!region_text(targets@[i as int]));
            if region_first.is_none() {
                region_first = Some(i);
            }
            region_count = region_count + 1;
        } else {
            assert(!region_text(targets@[i as int]));
            assert(!region_members(targets@[i as int]));
            proof {
                lemma_first_index_step(targets@, region_members, i as int);
            }
        }
        proof {
            lemma_first_index_step(targets@, region_text, i as int);
        }
        i = i + 1;
    }
    assert(first_index_from(targets@, region_text, n as int) is None);
    assert(count_from(targets@, region_members, n as int) == 0);
    if region_count == 1 {
        return region_first;
    }
    // Pass 2: any target of the page whose key matches.
    let mut j: usize = 0;
    while j < n
        invariant
            n == targets.len(),
            j <= n,
            original_key@ == key,
            key == target_text_key(original_text@),
            page_text == page_text_matches(page_index, key),
            first_index_from(targets@, region_text_matches(page_index, region_id@, key), 0) is None,
            count_from(targets@, in_region(page_index, region_id@), 0) != 1,
            first_index_from(targets@, page_text, 0) == first_index_from(
                targets@,
                page_text,
                j as int,
            ),
        decreases n - j,
    {
        let t = &targets[j];
        if t.page_index == page_index {
            let text_key = normalize_target_text(t.text.as_str());
            if str_eq(text_key.as_str(), original_key.as_str()) {
                assert(page_text(targets@[j as int]));
                return Some(j);
            }
        }
        assert(!page_text(targets@[j as int]));
        proof {
            lemma_first_index_step(targets@, page_text, j as int);
        }
        j = j + 1;
    }
    None
}

} // verus!

verus! {

/// A text key holds no white space.
pub proof fn target_text_key_has_no_white_space(text: Seq<char>)
    ensures
        forall|i: int|
            0 <= i < target_text_key(text).len() ==> !is_unicode_white_space(
                #[trigger] target_text_key(text)[i],
            ),
    decreases text.len(),
{
    if text.len() > 0 {
        target_text_key_has_no_white_space(text.drop_last());
        let before = target_text_key(text.drop_last());
        let c = text.last();
        if !is_unicode_white_space(c) && c == '\u{FF1A}' {
            assert(!is_unicode_white_space(':'));
        }
        assert forall|i: int| 0 <= i < target_text_key(text).len() implies !is_unicode_white_space(
            #[trigger] target_text_key(text)[i],
        ) by {
            if i < before.len() {
                assert(target_text_key(text)[i] == before[i]);
            }
        }
    }
}

} // verus!

verus! {

/// The target of a region of the given kind: none for a kind without text
/// targets or a page without interaction targets (`targets` is `None` when
/// the page has no paint plan); otherwise the lookup of
/// `resolve_region_text_target`.
pub fn resolve_region_target(
    targets: Option<&Vec<RegionTextTarget>>,
    page_index: u16,
    region_id: &str,
    kind: &str,
    original_text: &str,
) -> (found: Option<usize>)
    ensures
        !(kind@ == paragraph_region_kind() || kind@ == list_item_region_kind()) ==> found is None,
        (kind@ == paragraph_region_kind() || kind@ == list_item_region_kind()) ==> match targets {
            None => found is None,
            Some(t) => match found {
                Some(i) => spec_resolve_region_text_target(
                    t@,
                    page_index,
                    region_id@,
                    original_text@,
                ) == Some(i as int),
                None => spec_resolve_region_text_target(
                    t@,
                    page_index,
                    region_id@,
                    original_text@,
                ) is None,
            },
        },
{
    if !is_supported_region_kind(kind) {
        return None;
    }
    match targets {
        Some(t) => resolve_region_text_target(t, page_index, region_id, original_text),
        None => None,
    }
}

} // verus!
