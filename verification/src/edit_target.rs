//! Ids of edit targets. A paragraph split into visual segments gets one
//! target per segment, whose id is the paragraph id, the delimiter
//! `::edit-segment::` and the segment key.

use vstd::prelude::*;
use crate::chars::collect_chars;
use crate::text_format::{concat_str, push_decimal, push_str, decimal};

verus! {

pub open spec fn segment_delimiter() -> Seq<char> {
    seq![':', ':', 'e', 'd', 'i', 't', '-', 's', 'e', 'g', 'm', 'e', 'n', 't', ':', ':']
}

/// The smallest index `i >= from` at which `pat` occurs in `s`.
pub open spec fn first_occurrence_from(s: Seq<char>, pat: Seq<char>, from: int) -> Option<int>
    decreases s.len() + 1 - from,
{
    if from < 0 || from + pat.len() > s.len() {
        None
    } else if s.subrange(from, from + pat.len()) == pat {
        Some(from)
    } else {
        first_occurrence_from(s, pat, from + 1)
    }
}

pub open spec fn first_occurrence(s: Seq<char>, pat: Seq<char>) -> Option<int> {
    first_occurrence_from(s, pat, 0)
}

pub proof fn lemma_first_occurrence_bounds(s: Seq<char>, pat: Seq<char>, from: int)
    ensures
        first_occurrence_from(s, pat, from) matches Some(i) ==> from <= i && i + pat.len()
            <= s.len() && s.subrange(i, i + pat.len()) == pat,
    decreases s.len() + 1 - from,
{
    if !(from < 0 || from + pat.len() > s.len()) && s.subrange(from, from + pat.len()) != pat {
        lemma_first_occurrence_bounds(s, pat, from + 1);
    }
}

/// Part of the target id before the first delimiter (the whole id when there
/// is none).
pub open spec fn spec_base_paragraph_id(target: Seq<char>) -> Seq<char> {
    match first_occurrence(target, segment_delimiter()) {
        Some(i) => target.take(i),
        None => target,
    }
}

/// Part of the target id after the first delimiter, if there is one.
pub open spec fn spec_segment_key(target: Seq<char>) -> Option<Seq<char>> {
    match first_occurrence(target, segment_delimiter()) {
        Some(i) => Some(target.skip(i + segment_delimiter().len())),
        None => None,
    }
}

fn delimiter_chars() -> (d: Vec<char>)
    ensures
        d@ == segment_delimiter(),
{
    let d = vec![':', ':', 'e', 'd', 'i', 't', '-', 's', 'e', 'g', 'm', 'e', 'n', 't', ':', ':'];
    assert(d@ =~= segment_delimiter());
    d
}

pub(crate) fn find_first_occurrence(s: &Vec<char>, pat: &Vec<char>) -> (found: Option<usize>)
    requires
        pat.len() > 0,
    ensures
        match found {
            Some(i) => first_occurrence(s@, pat@) == Some(i as int),
            None => first_occurrence(s@, pat@) is None,
        },
{
    if pat.len() > s.len() {
        return None;
    }
    let last = s.len() - pat.len();
    let mut i: usize = 0;
    while i <= last
        invariant
            last == s.len() - pat.len(),
            pat.len() <= s.len(),
            first_occurrence(s@, pat@) == first_occurrence_from(s@, pat@, i as int),
        decreases last + 1 - i,
    {
        let mut k: usize = 0;
        let mut matched = true;
        while k < pat.len()
            invariant
                i + pat.len() <= s.len(),
                k <= pat.len(),
                matched == forall|j: int| 0 <= j < k ==> s@[i + j] == pat@[j],
            decreases pat.len() - k,
        {
            if s[i + k] != pat[k] {
                matched = false;
            }
            k = k + 1;
        }
        if matched {
            assert(s@.subrange(i as int, i + pat.len()) =~= pat@);
            return Some(i);
        } else {
            let ghost j = choose|j: int| 0 <= j < pat.len() && s@[i + j] != pat@[j];
            assert(s@.subrange(i as int, i + pat.len())[j] != pat@[j]);
        }
        if i == last {
            assert(first_occurrence_from(s@, pat@, i + 1) is None);
            return None;
        }
        i = i + 1;
    }
    None
}

/// The id of the segment `segment_key` of paragraph `base_paragraph_id`.
pub fn make_edit_segment_target_id(base_paragraph_id: &str, segment_key: &str) -> (id: String)
    ensures
        id@ == base_paragraph_id@ + segment_delimiter() + segment_key@,
{
    proof {
        reveal_strlit("::edit-segment::");
    }
    let mut id = concat_str(base_paragraph_id, "::edit-segment::");
    push_str(&mut id, segment_key);
    id
}

/// The paragraph id of an edit target id.
pub fn edit_target_base_paragraph_id(target_id: &str) -> (base: &str)
    ensures
        base@ == spec_base_paragraph_id(target_id@),
{
    let chars = collect_chars(target_id);
    let delim = delimiter_chars();
    match find_first_occurrence(&chars, &delim) {
        Some(i) => {
            proof {
                lemma_first_occurrence_bounds(chars@, delim@, 0);
            }
            let base = target_id.substring_char(0, i);
            assert(base@ =~= target_id@.take(i as int));
            base
        },
        None => target_id,
    }
}

/// The segment key of an edit target id, if it has one.
pub fn edit_target_segment_key(target_id: &str) -> (key: Option<&str>)
    ensures
        match key {
            Some(k) => spec_segment_key(target_id@) == Some(k@),
            None => spec_segment_key(target_id@) is None,
        },
{
    let chars = collect_chars(target_id);
    let delim = delimiter_chars();
    match find_first_occurrence(&chars, &delim) {
        Some(i) => {
            proof {
                lemma_first_occurrence_bounds(chars@, delim@, 0);
                assert(first_occurrence_from(chars@, delim@, 0) == Some(i as int));
                assert(i + delim@.len() <= chars@.len());
            }
            let n = chars.len();
            let dl = delim.len();
            assert(i + dl <= n);
            let key = target_id.substring_char(i + dl, n);
            assert(key@ =~= target_id@.skip(i + segment_delimiter().len()));
            Some(key)
        },
        None => None,
    }
}

/// Splitting a made id gives back its parts, provided the first delimiter of
/// `base + delimiter` is the appended one (e.g. `base` holds no delimiter and
/// does not end in a way that forms one with it).
pub proof fn segment_id_round_trip(base: Seq<char>, key: Seq<char>)
    requires
        first_occurrence(base + segment_delimiter(), segment_delimiter()) == Some(base.len() as int),
    ensures
        spec_base_paragraph_id(base + segment_delimiter() + key) == base,
        spec_segment_key(base + segment_delimiter() + key) == Some(key),
{
    let d = segment_delimiter();
    let id = base + d + key;
    lemma_first_occurrence_prefix(base + d, key, d, 0);
    assert(id.take(base.len() as int) =~= base);
    assert(id.skip((base.len() + d.len()) as int) =~= key);
}

/// An occurrence search in `a + b` that finds an occurrence within `a` finds
/// the same one.
proof fn lemma_first_occurrence_prefix(a: Seq<char>, b: Seq<char>, pat: Seq<char>, from: int)
    requires
        0 <= from,
        first_occurrence_from(a, pat, from) is Some,
    ensures
        first_occurrence_from(a + b, pat, from) == first_occurrence_from(a, pat, from),
    decreases a.len() + 1 - from,
{
    let s = a + b;
    if from + pat.len() <= a.len() {
        assert(s.subrange(from, from + pat.len()) =~= a.subrange(from, from + pat.len()));
        if a.subrange(from, from + pat.len()) != pat {
            lemma_first_occurrence_prefix(a, b, pat, from + 1);
        }
    }
}

/// Ids without a delimiter are whole paragraph ids without a segment key.
pub proof fn plain_id_has_no_segment(target: Seq<char>)
    requires
        first_occurrence(target, segment_delimiter()) is None,
    ensures
        spec_base_paragraph_id(target) == target,
        spec_segment_key(target) is None,
{
}

/// A visual segment of a paragraph: the indices of its runs and a key
/// `r<first>-<last>` naming them.
pub struct VisualSegment {
    pub key: String,
    pub run_indices: Vec<usize>,
}

pub open spec fn segment_key_text(run_indices: Seq<usize>) -> Seq<char> {
    let start: nat = if run_indices.len() > 0 {
        run_indices[0] as nat
    } else {
        0
    };
    let end: nat = if run_indices.len() > 0 {
        run_indices.last() as nat
    } else {
        start
    };
    seq!['r'] + decimal(start) + seq!['-'] + decimal(end)
}

pub fn visual_segment_from_indices(run_indices: Vec<usize>) -> (segment: VisualSegment)
    ensures
        segment.key@ == segment_key_text(run_indices@),
        segment.run_indices@ == run_indices@,
{
    let start: usize = if run_indices.len() > 0 {
        run_indices[0]
    } else {
        0
    };
    let end: usize = if run_indices.len() > 0 {
        run_indices[run_indices.len() - 1]
    } else {
        start
    };
    let mut key = String::new();
    crate::chars::string_push(&mut key, 'r');
    push_decimal(&mut key, start as u64);
    crate::chars::string_push(&mut key, '-');
    push_decimal(&mut key, end as u64);
    assert(key@ =~= segment_key_text(run_indices@));
    VisualSegment { key, run_indices }
}

} // verus!

verus! {

/// Which edit target a request opens: the whole paragraph, or one of the
/// paragraph's targets by its index.
#[derive(Clone, Copy, PartialEq, Eq, Structural, Debug)]
pub enum EditTargetChoice {
    Whole,
    Target(usize),
}

/// The first index from `i` on whose id has the segment key `key`.
pub open spec fn first_with_segment_key(ids: Seq<String>, key: Seq<char>, i: int) -> Option<int>
    decreases ids.len() - i,
{
    if i < 0 || i >= ids.len() {
        None
    } else if spec_segment_key(ids[i]@) == Some(key) {
        Some(i)
    } else {
        first_with_segment_key(ids, key, i + 1)
    }
}

/// The first index from `i` on whose id is `id`.
pub open spec fn first_with_id(ids: Seq<String>, id: Seq<char>, i: int) -> Option<int>
    decreases ids.len() - i,
{
    if i < 0 || i >= ids.len() {
        None
    } else if ids[i]@ == id {
        Some(i)
    } else {
        first_with_id(ids, id, i + 1)
    }
}

/// The choice among the targets with ids `target_ids`: none to choose from
/// gives the whole paragraph; a requested segment key that a target has picks
/// the first such target; a request for the paragraph itself with a single
/// target picks it; a click picks the target nearest to it
/// (`nearest_to_click`); otherwise the target with the requested id, or the
/// whole paragraph.
pub open spec fn spec_choose_edit_target(
    target_ids: Seq<String>,
    base_paragraph_id: Seq<char>,
    requested_target_id: Seq<char>,
    nearest_to_click: Option<usize>,
) -> EditTargetChoice {
    if target_ids.len() == 0 {
        EditTargetChoice::Whole
    } else {
        let by_segment = match spec_segment_key(requested_target_id) {
            Some(k) => first_with_segment_key(target_ids, k, 0),
            None => None,
        };
        match by_segment {
            Some(i) => EditTargetChoice::Target(i as usize),
            None => if requested_target_id == base_paragraph_id && target_ids.len() == 1 {
                EditTargetChoice::Target(0)
            } else {
                match nearest_to_click {
                    Some(i) => EditTargetChoice::Target(i),
                    None => match first_with_id(target_ids, requested_target_id, 0) {
                        Some(i) => EditTargetChoice::Target(i as usize),
                        None => EditTargetChoice::Whole,
                    },
                }
            },
        }
    }
}

/// Picks the edit target that a request opens (see
/// `spec_choose_edit_target`). `nearest_to_click` is the index of the target
/// nearest to the click point, when the request came with one.
pub fn choose_edit_target(
    target_ids: &Vec<String>,
    base_paragraph_id: &str,
    requested_target_id: &str,
    nearest_to_click: Option<usize>,
) -> (choice: EditTargetChoice)
    requires
        nearest_to_click matches Some(i) ==> i < target_ids@.len(),
    ensures
        choice == spec_choose_edit_target(
            target_ids@,
            base_paragraph_id@,
            requested_target_id@,
            nearest_to_click,
        ),
        choice matches EditTargetChoice::Target(i) ==> i < target_ids@.len(),
{
    if target_ids.len() == 0 {
        return EditTargetChoice::Whole;
    }
    match edit_target_segment_key(requested_target_id) {
        Some(key) => {
            let mut i: usize = 0;
            while i < target_ids.len()
                invariant
                    i <= target_ids.len(),
                    spec_segment_key(requested_target_id@) == Some(key@),
                    first_with_segment_key(target_ids@, key@, 0) == first_with_segment_key(
                        target_ids@,
                        key@,
                        i as int,
                    ),
                decreases target_ids.len() - i,
            {
                match edit_target_segment_key(target_ids[i].as_str()) {
                    Some(k) => {
                        if crate::chars::str_eq(k, key) {
                            return EditTargetChoice::Target(i);
                        }
                    },
                    None => {},
                }
                i = i + 1;
            }
        },
        None => {},
    }
    if crate::chars::str_eq(requested_target_id, base_paragraph_id) && target_ids.len() == 1 {
        return EditTargetChoice::Target(0);
    }
    match nearest_to_click {
        Some(i) => {
            return EditTargetChoice::Target(i);
        },
        None => {},
    }
    let mut j: usize = 0;
    while j < target_ids.len()
        invariant
            j <= target_ids.len(),
            target_ids@.len() > 0,
            nearest_to_click is None,
            !(requested_target_id@ == base_paragraph_id@ && target_ids@.len() == 1),
            match spec_segment_key(requested_target_id@) {
                Some(k) => first_with_segment_key(target_ids@, k, 0) is None,
                None => true,
            },
            first_with_id(target_ids@, requested_target_id@, 0) == first_with_id(
                target_ids@,
                requested_target_id@,
                j as int,
            ),
        decreases target_ids.len() - j,
    {
        if crate::chars::str_eq(target_ids[j].as_str(), requested_target_id) {
            return EditTargetChoice::Target(j);
        }
        j = j + 1;
    }
    EditTargetChoice::Whole
}

} // verus!

verus! {

/// The edit targets of a paragraph: the whole paragraph, or the segments at
/// the given indices, one target each.
pub enum EditTargetPlan {
    Whole,
    Segments(Vec<usize>),
}

/// The segment names a run of the paragraph.
pub open spec fn segment_has_run(segment: VisualSegment, run_count: int) -> bool {
    exists|j: int| 0 <= j < segment.run_indices@.len() && #[trigger] segment.run_indices@[j] < run_count
}

/// The indices, in order, of the first `i` segments that name a run.
pub open spec fn segments_with_runs(segments: Seq<VisualSegment>, run_count: int, i: int) -> Seq<usize>
    decreases i,
{
    if i <= 0 || i > segments.len() {
        Seq::empty()
    } else {
        let rest = segments_with_runs(segments, run_count, i - 1);
        if segment_has_run(segments[i - 1], run_count) {
            rest.push((i - 1) as usize)
        } else {
            rest
        }
    }
}

/// The targets of a paragraph whose runs hold `run_texts` and whose visual
/// segments are `segments`: the whole paragraph when there is no segment or
/// a single segment takes every run that holds text; otherwise every segment
/// that names a run of the paragraph.
pub fn plan_edit_targets(run_texts: &Vec<String>, segments: &Vec<VisualSegment>) -> (plan: EditTargetPlan)
    ensures
        ({
            let whole = segments@.len() == 0 || (segments@.len() == 1
                && segments@[0].run_indices@.len() == crate::run_ranges::non_empty_count(
                run_texts@,
                run_texts@.len() as int,
            ));
            match plan {
                EditTargetPlan::Whole => whole,
                EditTargetPlan::Segments(s) => !whole && s@ == segments_with_runs(
                    segments@,
                    run_texts@.len() as int,
                    segments@.len() as int,
                ),
            }
        }),
{
    if segments.len() == 0 {
        return EditTargetPlan::Whole;
    }
    let mut non_empty: usize = 0;
    let mut r: usize = 0;
    while r < run_texts.len()
        invariant
            r <= run_texts.len(),
            non_empty == crate::run_ranges::non_empty_count(run_texts@, r as int),
            non_empty <= r,
        decreases run_texts.len() - r,
    {
        if run_texts[r].as_str().unicode_len() > 0 {
            non_empty = non_empty + 1;
        }
        r = r + 1;
    }
    if segments.len() == 1 && segments[0].run_indices.len() == non_empty {
        return EditTargetPlan::Whole;
    }
    let mut chosen: Vec<usize> = Vec::new();
    let mut k: usize = 0;
    while k < segments.len()
        invariant
            k <= segments.len(),
            chosen@ == segments_with_runs(segments@, run_texts@.len() as int, k as int),
        decreases segments.len() - k,
    {
        let indices = &segments[k].run_indices;
        let mut found = false;
        let mut j: usize = 0;
        while j < indices.len()
            invariant
                k < segments.len(),
                indices == segments@[k as int].run_indices,
                j <= indices.len(),
                found == exists|q: int| 0 <= q < j && #[trigger] indices@[q] < run_texts@.len(),
            decreases indices.len() - j,
        {
            if indices[j] < run_texts.len() {
                found = true;
            }
            j = j + 1;
        }
        if found {
            chosen.push(k);
        }
        k = k + 1;
    }
    EditTargetPlan::Segments(chosen)
}

} // verus!
