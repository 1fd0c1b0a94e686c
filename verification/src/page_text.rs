//! Text rules of the page region context: the display text of a text object,
//! the split of a field text into key and value, and the scene hint that the
//! first texts of a page give.

use vstd::prelude::*;
use crate::chars::{char_is_whitespace, collect_chars, is_unicode_white_space};
use crate::edit_target::{find_first_occurrence, first_occurrence};
use crate::semantic_block::concat_texts;
use crate::text_format::{concat_str, decimal, push_decimal, push_str, to_owned_string};
use crate::chars::string_push;

verus! {

/// The text a text object shows: the text of its runs when it has runs,
/// its own text otherwise.
pub fn read_object_display_text(run_texts: &Vec<String>, text: &str) -> (shown: String)
    ensures
        shown@ == if run_texts@.len() > 0 {
            concat_texts(run_texts@)
        } else {
            text@
        },
{
    if run_texts.len() == 0 {
        to_owned_string(text)
    } else {
        crate::text_diff::body_runs_text(run_texts)
    }
}

/// Key and value of a field text: split at the first full-width colon
/// (U+FF1A), else at the first ASCII colon; without a colon the whole text is
/// the key and the value is empty.
pub open spec fn spec_split_key_value(text: Seq<char>) -> (Seq<char>, Seq<char>) {
    match first_occurrence(text, seq!['\u{FF1A}']) {
        Some(i) => (text.take(i), text.skip(i + 1)),
        None => match first_occurrence(text, seq![':']) {
            Some(i) => (text.take(i), text.skip(i + 1)),
            None => (text, Seq::empty()),
        },
    }
}

fn split_around(chars: &Vec<char>, i: usize) -> (parts: (String, String))
    requires
        i < chars.len(),
    ensures
        parts.0@ == chars@.take(i as int),
        parts.1@ == chars@.skip(i + 1),
{
    let key = crate::run_ranges::chars_text(chars, 0, i);
    let value = crate::run_ranges::chars_text(chars, i + 1, chars.len());
    assert(key@ =~= chars@.take(i as int));
    assert(value@ =~= chars@.skip(i + 1));
    (key, value)
}

/// Splits a field text into its key and its value (see
/// `spec_split_key_value`).
pub fn split_key_value_text(text: &str) -> (parts: (String, String))
    ensures
        (parts.0@, parts.1@) == spec_split_key_value(text@),
{
    let chars = collect_chars(text);
    let full_width = vec!['\u{FF1A}'];
    let ascii = vec![':'];
    assert(full_width@ =~= seq!['\u{FF1A}']);
    assert(ascii@ =~= seq![':']);
    match find_first_occurrence(&chars, &full_width) {
        Some(i) => {
            proof {
                crate::edit_target::lemma_first_occurrence_bounds(chars@, full_width@, 0);
            }
            split_around(&chars, i)
        },
        None => match find_first_occurrence(&chars, &ascii) {
            Some(i) => {
                proof {
                    crate::edit_target::lemma_first_occurrence_bounds(chars@, ascii@, 0);
                }
                split_around(&chars, i)
            },
            None => (to_owned_string(text), String::new()),
        },
    }
}

/// The first position at or after `k` that does not hold white space.
pub open spec fn first_solid_from(s: Seq<char>, k: int) -> int
    decreases s.len() - k,
{
    if k >= s.len() || k < 0 {
        s.len() as int
    } else if !is_unicode_white_space(s[k]) {
        k
    } else {
        first_solid_from(s, k + 1)
    }
}

/// One past the last position before `k` that does not hold white space.
pub open spec fn last_solid_before(s: Seq<char>, k: int) -> int
    decreases k,
{
    if k <= 0 {
        0
    } else if !is_unicode_white_space(s[k - 1]) {
        k
    } else {
        last_solid_before(s, k - 1)
    }
}

/// `s` without leading and trailing white space.
pub open spec fn trimmed(s: Seq<char>) -> Seq<char> {
    let start = first_solid_from(s, 0);
    if start >= s.len() {
        Seq::empty()
    } else {
        s.subrange(start, last_solid_before(s, s.len() as int))
    }
}

proof fn lemma_first_solid_bounds(s: Seq<char>, k: int)
    requires
        0 <= k <= s.len(),
    ensures
        k <= first_solid_from(s, k) <= s.len(),
        first_solid_from(s, k) < s.len() ==> !is_unicode_white_space(s[first_solid_from(s, k)]),
    decreases s.len() - k,
{
    if k < s.len() && is_unicode_white_space(s[k]) {
        lemma_first_solid_bounds(s, k + 1);
    }
}

proof fn lemma_last_solid_at_most(s: Seq<char>, k: int)
    requires
        k >= 0,
    ensures
        last_solid_before(s, k) <= k,
        0 <= last_solid_before(s, k),
    decreases k,
{
    if k > 0 && is_unicode_white_space(s[k - 1]) {
        lemma_last_solid_at_most(s, k - 1);
    }
}

proof fn lemma_last_solid_bounds(s: Seq<char>, k: int, floor: int)
    requires
        0 <= floor < k <= s.len(),
        !is_unicode_white_space(s[floor]),
    ensures
        floor < last_solid_before(s, k) <= k,
    decreases k,
{
    if is_unicode_white_space(s[k - 1]) {
        lemma_last_solid_bounds(s, k - 1, floor);
    }
}

/// `text` without leading and trailing white space.
pub fn trim_text(text: &str) -> (out: String)
    ensures
        out@ == trimmed(text@),
{
    let chars = collect_chars(text);
    let mut start: usize = 0;
    while start < chars.len() && char_is_whitespace(chars[start])
        invariant
            start <= chars.len(),
            first_solid_from(chars@, 0) == first_solid_from(chars@, start as int),
        decreases chars.len() - start,
    {
        start = start + 1;
    }
    if start >= chars.len() {
        return String::new();
    }
    let mut end: usize = chars.len();
    proof {
        lemma_first_solid_bounds(chars@, 0);
        lemma_last_solid_bounds(chars@, chars.len() as int, start as int);
    }
    while end > start && char_is_whitespace(chars[end - 1])
        invariant
            start < chars.len(),
            start <= end <= chars.len(),
            !is_unicode_white_space(chars@[start as int]),
            last_solid_before(chars@, chars.len() as int) == last_solid_before(chars@, end as int),
        decreases end,
    {
        end = end - 1;
    }
    proof {
        lemma_last_solid_at_most(chars@, end as int);
    }
    crate::run_ranges::chars_text(&chars, start, end)
}

/// The texts joined with single spaces.
pub open spec fn joined(texts: Seq<Seq<char>>) -> Seq<char>
    decreases texts.len(),
{
    if texts.len() == 0 {
        Seq::empty()
    } else if texts.len() == 1 {
        texts[0]
    } else {
        joined(texts.drop_last()) + seq![' '] + texts.last()
    }
}

/// The trimmed texts of the first `n` objects (at most 40) joined by spaces.
pub open spec fn scene_text(texts: Seq<String>) -> Seq<char> {
    let n = if texts.len() < 40 {
        texts.len() as int
    } else {
        40
    };
    joined(texts.take(n).map_values(|t: String| trimmed(t@)))
}

pub open spec fn contains_text(s: Seq<char>, token: Seq<char>) -> bool {
    first_occurrence(s, token) is Some
}

pub open spec fn resume_tokens() -> Seq<Seq<char>> {
    seq![
        seq!['简', '历'],
        seq!['求', '职', '意', '向'],
        seq!['教', '育', '背', '景'],
        seq!['专', '业', '技', '能'],
        seq!['核', '心', '优', '势'],
    ]
}

pub open spec fn form_tokens() -> Seq<Seq<char>> {
    seq![
        seq!['姓', '名'],
        seq!['性', '别'],
        seq!['电', '话'],
        seq!['邮', '箱'],
        seq!['地', '址'],
    ]
}

pub open spec fn tokens_for(resume: bool) -> Seq<Seq<char>> {
    if resume {
        resume_tokens()
    } else {
        form_tokens()
    }
}

pub open spec fn contains_any(s: Seq<char>, tokens: Seq<Seq<char>>) -> bool {
    exists|i: int| 0 <= i < tokens.len() && contains_text(s, #[trigger] tokens[i])
}

/// The kind of page the first texts suggest: `resume` when they name a
/// section of a résumé, `form-like` when they name a personal data field,
/// `generic` otherwise.
pub open spec fn spec_scene_hint(texts: Seq<String>) -> Seq<char> {
    let c = scene_text(texts);
    if contains_any(c, resume_tokens()) {
        seq!['r', 'e', 's', 'u', 'm', 'e']
    } else if contains_any(c, form_tokens()) {
        seq!['f', 'o', 'r', 'm', '-', 'l', 'i', 'k', 'e']
    } else {
        seq!['g', 'e', 'n', 'e', 'r', 'i', 'c']
    }
}

fn token_list(resume: bool) -> (tokens: Vec<Vec<char>>)
    ensures
        tokens@.len() == 5,
        forall|i: int|
            0 <= i < 5 ==> (#[trigger] tokens@[i])@ == tokens_for(resume)[i],
        forall|i: int| 0 <= i < 5 ==> (#[trigger] tokens@[i])@.len() > 0,
{
    let tokens = if resume {
        vec![
            vec!['简', '历'],
            vec!['求', '职', '意', '向'],
            vec!['教', '育', '背', '景'],
            vec!['专', '业', '技', '能'],
            vec!['核', '心', '优', '势'],
        ]
    } else {
        vec![
            vec!['姓', '名'],
            vec!['性', '别'],
            vec!['电', '话'],
            vec!['邮', '箱'],
            vec!['地', '址'],
        ]
    };
    assert(tokens@[0]@ =~= tokens_for(resume)[0]);
    assert(tokens@[1]@ =~= tokens_for(resume)[1]);
    assert(tokens@[2]@ =~= tokens_for(resume)[2]);
    assert(tokens@[3]@ =~= tokens_for(resume)[3]);
    assert(tokens@[4]@ =~= tokens_for(resume)[4]);
    tokens
}

fn contains_any_token(s: &Vec<char>, resume: bool) -> (b: bool)
    ensures
        b == contains_any(s@, tokens_for(resume)),
{
    let tokens = token_list(resume);
    let ghost expected = tokens_for(resume);
    let mut i: usize = 0;
    while i < tokens.len()
        invariant
            tokens@.len() == 5,
            expected == tokens_for(resume),
            expected.len() == 5,
            forall|k: int| 0 <= k < 5 ==> (#[trigger] tokens@[k])@ == expected[k],
            forall|k: int| 0 <= k < 5 ==> (#[trigger] tokens@[k])@.len() > 0,
            i <= 5,
            forall|k: int| 0 <= k < i ==> !contains_text(s@, #[trigger] expected[k]),
        decreases tokens.len() - i,
    {
        if find_first_occurrence(s, &tokens[i]).is_some() {
            assert(contains_text(s@, expected[i as int]));
            assert(0 <= i < expected.len());
            return true;
        }
        i = i + 1;
    }
    false
}

/// The scene hint of a page from the display texts of its text objects, in
/// reading order (see `spec_scene_hint`).
pub fn infer_scene_hint(object_texts: &Vec<String>) -> (hint: String)
    ensures
        hint@ == spec_scene_hint(object_texts@),
{
    let ghost texts = object_texts@;
    let n: usize = if object_texts.len() < 40 {
        object_texts.len()
    } else {
        40
    };
    let ghost parts = texts.take(n as int).map_values(|t: String| trimmed(t@));
    let mut combined: Vec<char> = Vec::new();
    let mut i: usize = 0;
    while i < n
        invariant
            n <= object_texts.len(),
            texts == object_texts@,
            parts == texts.take(n as int).map_values(|t: String| trimmed(t@)),
            i <= n,
            combined@ == joined(parts.take(i as int)),
        decreases n - i,
    {
        let part = trim_text(object_texts[i].as_str());
        let pc = collect_chars(part.as_str());
        assert(pc@ == parts[i as int]);
        assert(parts.take(i + 1).drop_last() =~= parts.take(i as int));
        let ghost before = combined@;
        if i > 0 {
            combined.push(' ');
        }
        let mut k: usize = 0;
        while k < pc.len()
            invariant
                k <= pc.len(),
                combined@ == (if i > 0 {
                    before + seq![' ']
                } else {
                    before
                }) + pc@.take(k as int),
            decreases pc.len() - k,
        {
            combined.push(pc[k]);
            assert(pc@.take(k + 1) =~= pc@.take(k as int).push(pc@[k as int]));
            k = k + 1;
        }
        assert(pc@.take(pc.len() as int) =~= pc@);
        proof {
            if i == 0 {
                assert(parts.take(1) =~= seq![parts[0]]);
                assert(before =~= Seq::<char>::empty());
            }
        }
        i = i + 1;
    }
    assert(parts.take(n as int) =~= parts);
    proof {
        reveal_strlit("resume");
        reveal_strlit("form-like");
        reveal_strlit("generic");
    }
    assert(tokens_for(true) == resume_tokens());
    assert(tokens_for(false) == form_tokens());
    if contains_any_token(&combined, true) {
        to_owned_string("resume")
    } else if contains_any_token(&combined, false) {
        to_owned_string("form-like")
    } else {
        to_owned_string("generic")
    }
}

} // verus!

verus! {

/// Where the text has a colon, key, colon and value give the text back.
pub proof fn split_key_value_reassembles(text: Seq<char>)
    ensures
        ({
            let (key, value) = spec_split_key_value(text);
            match first_occurrence(text, seq!['\u{FF1A}']) {
                Some(_) => key + seq!['\u{FF1A}'] + value == text,
                None => match first_occurrence(text, seq![':']) {
                    Some(_) => key + seq![':'] + value == text,
                    None => key == text && value.len() == 0,
                },
            }
        }),
{
    crate::edit_target::lemma_first_occurrence_bounds(text, seq!['\u{FF1A}'], 0);
    crate::edit_target::lemma_first_occurrence_bounds(text, seq![':'], 0);
    match first_occurrence(text, seq!['\u{FF1A}']) {
        Some(i) => {
            assert(text.subrange(i, i + 1)[0] == '\u{FF1A}');
            assert(text.take(i) + seq!['\u{FF1A}'] + text.skip(i + 1) =~= text);
        },
        None => match first_occurrence(text, seq![':']) {
            Some(i) => {
                assert(text.subrange(i, i + 1)[0] == ':');
                assert(text.take(i) + seq![':'] + text.skip(i + 1) =~= text);
            },
            None => {},
        },
    }
}

/// The id of a style run: `<line key>::run::<index>`.
pub open spec fn style_run_id(line_key: Seq<char>, index: int) -> Seq<char> {
    line_key + seq![':', ':', 'r', 'u', 'n', ':', ':'] + decimal(index as nat)
}

/// A planned style run: its id, its text, its character range in the line,
/// and the index of the object's run it comes from (`None` for the run made
/// of the whole object).
pub struct StyleRunPlan {
    pub id: String,
    pub text: String,
    pub start: usize,
    pub end: usize,
    pub run_index: Option<usize>,
}

pub open spec fn style_run_view(p: StyleRunPlan) -> (Seq<char>, Seq<char>, int, int, Option<usize>) {
    (p.id@, p.text@, p.start as int, p.end as int, p.run_index)
}

/// The style runs of the first `n` runs of an object: one per run with text,
/// each covering the characters after those of the runs before it.
pub open spec fn planned_style_runs(line_key: Seq<char>, run_texts: Seq<String>, n: int) -> Seq<
    (Seq<char>, Seq<char>, int, int, Option<usize>),
>
    decreases n,
{
    if n <= 0 {
        Seq::empty()
    } else {
        let before = planned_style_runs(line_key, run_texts, n - 1);
        let text = run_texts[n - 1]@;
        if text.len() == 0 {
            before
        } else {
            let start = concat_texts(run_texts.take(n - 1)).len() as int;
            before.push(
                (style_run_id(line_key, n - 1), text, start, start + text.len(), Some((n - 1) as usize)),
            )
        }
    }
}

/// The style runs of a text object: those of its runs with text, or, when
/// there are none, one run holding the object's display text.
pub open spec fn spec_style_runs(line_key: Seq<char>, run_texts: Seq<String>, object_text: Seq<char>) -> Seq<
    (Seq<char>, Seq<char>, int, int, Option<usize>),
> {
    let planned = planned_style_runs(line_key, run_texts, run_texts.len() as int);
    if planned.len() > 0 {
        planned
    } else {
        let shown = if run_texts.len() > 0 {
            concat_texts(run_texts)
        } else {
            object_text
        };
        seq![(style_run_id(line_key, 0), shown, 0, shown.len() as int, None)]
    }
}

proof fn lemma_concat_prefix_step(texts: Seq<String>, i: int)
    requires
        0 <= i < texts.len(),
    ensures
        concat_texts(texts.take(i + 1)) == concat_texts(texts.take(i)) + texts[i]@,
{
    assert(texts.take(i + 1).drop_last() =~= texts.take(i));
}

proof fn lemma_concat_prefix_bound(texts: Seq<String>, i: int)
    requires
        0 <= i <= texts.len(),
    ensures
        concat_texts(texts.take(i)).len() <= concat_texts(texts).len(),
    decreases texts.len() - i,
{
    if i < texts.len() {
        lemma_concat_prefix_step(texts, i);
        lemma_concat_prefix_bound(texts, i + 1);
    } else {
        assert(texts.take(i) =~= texts);
    }
}

fn style_run_id_text(line_key: &str, index: usize) -> (id: String)
    ensures
        id@ == style_run_id(line_key@, index as int),
{
    proof {
        reveal_strlit("::run::");
    }
    let mut id = concat_str(line_key, "::run::");
    push_decimal(&mut id, index as u64);
    id
}

/// Plans the style runs of a text object whose runs have the texts
/// `run_texts` and whose own text is `object_text` (see `spec_style_runs`).
pub fn plan_style_runs(line_key: &str, run_texts: &Vec<String>, object_text: &str) -> (plans: Vec<
    StyleRunPlan,
>)
    requires
        concat_texts(run_texts@).len() <= usize::MAX,
    ensures
        plans@.map_values(|p: StyleRunPlan| style_run_view(p)) == spec_style_runs(
            line_key@,
            run_texts@,
            object_text@,
        ),
{
    let mut plans: Vec<StyleRunPlan> = Vec::new();
    let mut offset: usize = 0;
    let mut i: usize = 0;
    while i < run_texts.len()
        invariant
            i <= run_texts.len(),
            concat_texts(run_texts@).len() <= usize::MAX,
            offset == concat_texts(run_texts@.take(i as int)).len(),
            plans@.map_values(|p: StyleRunPlan| style_run_view(p)) == planned_style_runs(
                line_key@,
                run_texts@,
                i as int,
            ),
        decreases run_texts.len() - i,
    {
        proof {
            lemma_concat_prefix_step(run_texts@, i as int);
            lemma_concat_prefix_bound(run_texts@, i + 1);
        }
        let count = collect_chars(run_texts[i].as_str()).len();
        if count > 0 {
            let plan = StyleRunPlan {
                id: style_run_id_text(line_key, i),
                text: run_texts[i].clone(),
                start: offset,
                end: offset + count,
                run_index: Some(i),
            };
            let ghost before = plans@;
            plans.push(plan);
            assert(plans@.map_values(|p: StyleRunPlan| style_run_view(p)) =~= before.map_values(
                |p: StyleRunPlan| style_run_view(p),
            ).push(style_run_view(plan)));
        }
        offset = offset + count;
        i = i + 1;
    }
    assert(run_texts@.take(run_texts.len() as int) =~= run_texts@);
    if plans.len() == 0 {
        let shown = read_object_display_text(run_texts, object_text);
        let count = collect_chars(shown.as_str()).len();
        let plan = StyleRunPlan {
            id: style_run_id_text(line_key, 0),
            text: shown,
            start: 0,
            end: count,
            run_index: None,
        };
        let ghost empty = plans@;
        plans.push(plan);
        assert(plans@.map_values(|p: StyleRunPlan| style_run_view(p)) =~= seq![style_run_view(plan)]);
    }
    plans
}

/// The run's own text (a font name or a colour) where it has one, the
/// object's otherwise.
pub fn text_or_object_text(run_text: &str, object_text: &str) -> (chosen: String)
    ensures
        chosen@ == if run_text@.len() > 0 {
            run_text@
        } else {
            object_text@
        },
{
    if run_text.is_empty() {
        to_owned_string(object_text)
    } else {
        to_owned_string(run_text)
    }
}

/// The object indices of a run with paint order `z_index`: that index when
/// the object lists it; all of the object's indices when the run has no
/// paint order of its own (0) and the object has exactly one; else the
/// run's index.
pub fn run_object_indices(z_index: usize, object_indices: &Vec<usize>) -> (indices: Vec<usize>)
    ensures
        indices@ == if object_indices@.contains(z_index) {
            seq![z_index]
        } else if z_index == 0 && object_indices@.len() == 1 {
            object_indices@
        } else {
            seq![z_index]
        },
{
    let mut i: usize = 0;
    while i < object_indices.len()
        invariant
            i <= object_indices.len(),
            forall|k: int| 0 <= k < i ==> object_indices@[k] != z_index,
        decreases object_indices.len() - i,
    {
        if object_indices[i] == z_index {
            let v = vec![z_index];
            assert(object_indices@[i as int] == z_index);
            assert(v@ =~= seq![z_index]);
            return v;
        }
        i = i + 1;
    }
    if z_index == 0 && object_indices.len() == 1 {
        let v = vec![object_indices[0]];
        assert(v@ =~= object_indices@);
        v
    } else {
        let v = vec![z_index];
        assert(v@ =~= seq![z_index]);
        v
    }
}

/// The id of a paragraph region: the paragraph id of its first object, else
/// that object's id, else `paragraph-<page>-<first line index>`.
pub open spec fn spec_paragraph_region_id(
    page_index: u16,
    first_line_index: usize,
    first_object: Option<(Option<String>, String)>,
) -> Seq<char> {
    match first_object {
        Some((Some(paragraph_id), _)) => paragraph_id@,
        Some((None, object_id)) => object_id@,
        None => seq!['p', 'a', 'r', 'a', 'g', 'r', 'a', 'p', 'h', '-'] + decimal(page_index as nat)
            + seq!['-'] + decimal(first_line_index as nat),
    }
}

/// The id of a paragraph region (see `spec_paragraph_region_id`); the first
/// object is given by its paragraph id and its own id.
pub fn paragraph_region_id(
    page_index: u16,
    first_line_index: usize,
    first_object: Option<(Option<String>, String)>,
) -> (id: String)
    ensures
        id@ == spec_paragraph_region_id(page_index, first_line_index, first_object),
{
    match first_object {
        Some((Some(paragraph_id), _)) => paragraph_id,
        Some((None, object_id)) => object_id,
        None => {
            proof {
                reveal_strlit("paragraph-");
            }
            let mut id = to_owned_string("paragraph-");
            push_decimal(&mut id, page_index as u64);
            string_push(&mut id, '-');
            push_decimal(&mut id, first_line_index as u64);
            id
        },
    }
}

/// The texts joined with newlines.
pub open spec fn lines_joined(texts: Seq<Seq<char>>) -> Seq<char>
    decreases texts.len(),
{
    if texts.len() == 0 {
        Seq::empty()
    } else if texts.len() == 1 {
        texts[0]
    } else {
        lines_joined(texts.drop_last()) + seq!['\n'] + texts.last()
    }
}

/// The text of a paragraph region: the texts of its lines joined with
/// newlines.
pub fn join_line_texts(texts: &Vec<String>) -> (text: String)
    ensures
        text@ == lines_joined(texts@.map_values(|t: String| t@)),
{
    let ghost views = texts@.map_values(|t: String| t@);
    let mut text = String::new();
    let mut i: usize = 0;
    while i < texts.len()
        invariant
            i <= texts.len(),
            views == texts@.map_values(|t: String| t@),
            text@ == lines_joined(views.take(i as int)),
        decreases texts.len() - i,
    {
        let ghost before = text@;
        if i > 0 {
            string_push(&mut text, '\n');
        }
        push_str(&mut text, texts[i].as_str());
        assert(views.take(i + 1).drop_last() =~= views.take(i as int));
        assert(views.take(i + 1).last() == texts@[i as int]@);
        if i == 0 {
            assert(text@ =~= lines_joined(views.take(1)));
        } else {
            assert(text@ =~= lines_joined(views.take(i + 1)));
        }
        i = i + 1;
    }
    assert(views.take(texts.len() as int) =~= views);
    text
}

} // verus!
