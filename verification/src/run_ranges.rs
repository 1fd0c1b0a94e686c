//! Character positions over the runs of a paragraph: which run holds a
//! character, which parts of the runs a character range covers, where each
//! run goes when a list paragraph is split into marker and body, and where
//! the body starts behind a marker drawn in a symbol font.

use vstd::prelude::*;
use crate::chars::{char_is_whitespace, collect_chars, is_unicode_white_space};
use crate::editor_state::ListMarkerKind;
use crate::semantic_block::concat_texts;
use crate::text_format::{decimal, push_decimal, push_str, to_owned_string};

verus! {

/// Where a run goes when a paragraph is split at its first body character.
#[derive(Clone, Copy, PartialEq, Eq, Structural, Debug)]
pub enum RunPlacement {
    /// The whole run belongs to the marker.
    Marker,
    /// The whole run belongs to the body.
    Body,
    /// The first `n` characters belong to the marker, the rest to the body.
    Split(usize),
}

/// The number of characters of the first `i` runs.
pub open spec fn count_sum(counts: Seq<usize>, i: int) -> int
    decreases i,
{
    if i <= 0 {
        0
    } else {
        count_sum(counts, i - 1) + counts[i - 1]
    }
}

/// Where run `i` goes when the body starts at character `body_char_start`.
pub open spec fn spec_placement(counts: Seq<usize>, i: int, body_char_start: usize) -> RunPlacement {
    let start = count_sum(counts, i);
    let end = start + counts[i];
    if body_char_start >= end {
        RunPlacement::Marker
    } else if body_char_start <= start {
        RunPlacement::Body
    } else {
        RunPlacement::Split((body_char_start - start) as usize)
    }
}

/// The placement of every run, or `None` where no character is left for the
/// body. A body that starts at 0 takes every run and leaves no marker.
pub open spec fn spec_marker_split_plan(counts: Seq<usize>, body_char_start: usize) -> Option<
    Seq<RunPlacement>,
> {
    if body_char_start == 0 {
        Some(Seq::new(counts.len(), |i: int| RunPlacement::Body))
    } else if body_char_start >= count_sum(counts, counts.len() as int) {
        None
    } else {
        Some(Seq::new(counts.len(), |i: int| spec_placement(counts, i, body_char_start)))
    }
}

/// The character counts of run prefixes grow with the prefix.
pub proof fn lemma_count_sum_monotone(counts: Seq<usize>, i: int, j: int)
    requires
        0 <= i <= j <= counts.len(),
    ensures
        count_sum(counts, i) <= count_sum(counts, j),
    decreases j - i,
{
    if i < j {
        lemma_count_sum_monotone(counts, i, j - 1);
    }
}

/// Plans the split of a paragraph whose runs hold `run_char_counts`
/// characters into a marker (the characters before `body_char_start`) and a
/// body (the rest): `None` where nothing is left for the body.
pub fn plan_marker_split(run_char_counts: &Vec<usize>, body_char_start: usize) -> (plan: Option<
    Vec<RunPlacement>,
>)
    requires
        count_sum(run_char_counts@, run_char_counts@.len() as int) <= usize::MAX,
    ensures
        match plan {
            Some(p) => spec_marker_split_plan(run_char_counts@, body_char_start) == Some(p@),
            None => spec_marker_split_plan(run_char_counts@, body_char_start) is None,
        },
{
    let ghost counts = run_char_counts@;
    let mut placements: Vec<RunPlacement> = Vec::new();
    if body_char_start == 0 {
        let mut i: usize = 0;
        while i < run_char_counts.len()
            invariant
                i <= run_char_counts.len(),
                placements@ =~= Seq::new(i as nat, |k: int| RunPlacement::Body),
            decreases run_char_counts.len() - i,
        {
            placements.push(RunPlacement::Body);
            i = i + 1;
        }
        return Some(placements);
    }
    let mut consumed: usize = 0;
    let mut has_body = false;
    let mut i: usize = 0;
    while i < run_char_counts.len()
        invariant
            counts == run_char_counts@,
            count_sum(counts, counts.len() as int) <= usize::MAX,
            i <= run_char_counts.len(),
            consumed == count_sum(counts, i as int),
            has_body == (body_char_start < consumed),
            placements@ =~= Seq::new(
                i as nat,
                |k: int| spec_placement(counts, k, body_char_start),
            ),
        decreases run_char_counts.len() - i,
    {
        proof {
            lemma_count_sum_monotone(counts, i + 1, counts.len() as int);
        }
        let run_start = consumed;
        let run_end = consumed + run_char_counts[i];
        let placement = if body_char_start >= run_end {
            RunPlacement::Marker
        } else if body_char_start <= run_start {
            RunPlacement::Body
        } else {
            RunPlacement::Split(body_char_start - run_start)
        };
        placements.push(placement);
        if body_char_start < run_end {
            has_body = true;
        }
        consumed = run_end;
        i = i + 1;
    }
    if !has_body {
        return None;
    }
    Some(placements)
}

pub open spec fn placement_rank(p: RunPlacement) -> int {
    match p {
        RunPlacement::Marker => 0,
        RunPlacement::Split(_) => 1,
        RunPlacement::Body => 2,
    }
}

/// A split keeps the order of the text: marker runs come first, then at most
/// one run cut in two inside its text, then the body runs.
pub proof fn marker_split_keeps_text_order(counts: Seq<usize>, body_char_start: usize)
    requires
        spec_marker_split_plan(counts, body_char_start) is Some,
    ensures
        ({
            let p = spec_marker_split_plan(counts, body_char_start)->0;
            &&& p.len() == counts.len()
            &&& forall|i: int, j: int|
                0 <= i < j < p.len() ==> placement_rank(p[i]) <= placement_rank(p[j])
            &&& forall|i: int, j: int|
                0 <= i < j < p.len() ==> !(p[i] is Split && p[j] is Split)
            &&& forall|i: int|
                0 <= i < p.len() ==> (#[trigger] p[i] matches RunPlacement::Split(n) ==> 0 < n < counts[i])
        }),
{
    let p = spec_marker_split_plan(counts, body_char_start)->0;
    if body_char_start != 0 {
        assert forall|i: int, j: int| 0 <= i < j < p.len() implies placement_rank(p[i])
            <= placement_rank(p[j]) && !(p[i] is Split && p[j] is Split) by {
            lemma_count_sum_monotone(counts, i + 1, j);
        }
    }
}

/// The characters of the first `i` texts.
pub open spec fn texts_prefix(texts: Seq<String>, i: int) -> Seq<char> {
    concat_texts(texts.take(i))
}

/// The number of non-empty texts among the first `n`.
pub open spec fn non_empty_count(texts: Seq<String>, n: int) -> int
    decreases n,
{
    if n <= 0 {
        0
    } else {
        non_empty_count(texts, n - 1) + (if texts[n - 1]@.len() > 0 {
            1int
        } else {
            0int
        })
    }
}

/// The characters of the marker drawn in a symbol font, from run `i` on:
/// empty runs are passed over, and the first non-empty run outside a symbol
/// font ends the marker.
pub open spec fn symbol_marker_chars(texts: Seq<String>, symbolic: Seq<bool>, i: int) -> int
    decreases texts.len() - i,
{
    if i >= texts.len() || i < 0 {
        0
    } else if texts[i]@.len() == 0 {
        symbol_marker_chars(texts, symbolic, i + 1)
    } else if !symbolic[i] {
        0
    } else {
        texts[i]@.len() + symbol_marker_chars(texts, symbolic, i + 1)
    }
}

/// The first position at or after `k` that does not hold white space.
pub open spec fn first_non_space_from(chars: Seq<char>, k: int) -> Option<int>
    decreases chars.len() - k,
{
    if k >= chars.len() || k < 0 {
        None
    } else if !is_unicode_white_space(chars[k]) {
        Some(k)
    } else {
        first_non_space_from(chars, k + 1)
    }
}

/// Where the body starts behind a marker drawn in a symbol font: `None`
/// unless at least two runs hold text and the first of them is in a symbol
/// font; otherwise the first non-space character after the marker runs.
pub open spec fn spec_symbol_marker_body_start(texts: Seq<String>, symbolic: Seq<bool>) -> Option<
    int,
> {
    if non_empty_count(texts, texts.len() as int) < 2 {
        None
    } else if symbol_marker_chars(texts, symbolic, 0) == 0 {
        None
    } else {
        first_non_space_from(concat_texts(texts), symbol_marker_chars(texts, symbolic, 0))
    }
}

proof fn lemma_concat_take_push(texts: Seq<String>, i: int)
    requires
        0 <= i < texts.len(),
    ensures
        concat_texts(texts.take(i + 1)) == concat_texts(texts.take(i)) + texts[i]@,
{
    assert(texts.take(i + 1).drop_last() =~= texts.take(i));
}

proof fn lemma_symbol_marker_chars_bound(texts: Seq<String>, symbolic: Seq<bool>, i: int)
    requires
        0 <= i <= texts.len(),
    ensures
        0 <= symbol_marker_chars(texts, symbolic, i),
        concat_texts(texts.take(i)).len() + symbol_marker_chars(texts, symbolic, i)
            <= concat_texts(texts).len(),
    decreases texts.len() - i,
{
    if i < texts.len() {
        lemma_concat_take_push(texts, i);
        lemma_symbol_marker_chars_bound(texts, symbolic, i + 1);
    } else {
        assert(texts.take(i) =~= texts);
    }
}

/// Detects a marker drawn in a symbol font: `run_texts` are the texts of the
/// paragraph's runs and `run_is_symbolic` says of each whether its font is a
/// symbol font. Gives the character where the body starts, with the marker
/// kind `Symbol`.
pub fn detect_symbolic_font_marker(run_texts: &Vec<String>, run_is_symbolic: &Vec<bool>) -> (r:
    Option<(usize, ListMarkerKind)>)
    requires
        run_is_symbolic.len() == run_texts.len(),
        concat_texts(run_texts@).len() < usize::MAX,
    ensures
        match r {
            Some((start, kind)) => kind == ListMarkerKind::Symbol && spec_symbol_marker_body_start(
                run_texts@,
                run_is_symbolic@,
            ) == Some(start as int),
            None => spec_symbol_marker_body_start(run_texts@, run_is_symbolic@) is None,
        },
{
    let ghost texts = run_texts@;
    let ghost symbolic = run_is_symbolic@;
    // All characters, and the number of runs with text.
    let mut chars: Vec<char> = Vec::new();
    let mut non_empty: usize = 0;
    let mut i: usize = 0;
    while i < run_texts.len()
        invariant
            texts == run_texts@,
            concat_texts(texts).len() < usize::MAX,
            i <= run_texts.len(),
            chars@ == concat_texts(texts.take(i as int)),
            non_empty == non_empty_count(texts, i as int),
            non_empty <= i,
        decreases run_texts.len() - i,
    {
        proof {
            lemma_concat_take_push(texts, i as int);
            lemma_symbol_marker_chars_bound(texts, symbolic, i + 1);
        }
        let run_chars = collect_chars(run_texts[i].as_str());
        if run_chars.len() > 0 {
            non_empty = non_empty + 1;
        }
        let mut k: usize = 0;
        while k < run_chars.len()
            invariant
                i < texts.len(),
                run_chars@ == texts[i as int]@,
                concat_texts(texts.take(i + 1)).len() <= concat_texts(texts).len(),
                concat_texts(texts).len() < usize::MAX,
                concat_texts(texts.take(i + 1)) == concat_texts(texts.take(i as int)) + texts[i as int]@,
                k <= run_chars.len(),
                chars@ == concat_texts(texts.take(i as int)) + run_chars@.take(k as int),
            decreases run_chars.len() - k,
        {
            chars.push(run_chars[k]);
            assert(run_chars@.take(k + 1) =~= run_chars@.take(k as int).push(run_chars@[k as int]));
            k = k + 1;
        }
        assert(run_chars@.take(k as int) =~= run_chars@);
        i = i + 1;
    }
    assert(texts.take(texts.len() as int) =~= texts);
    if non_empty < 2 {
        return None;
    }
    // Characters of the runs in a symbol font at the start.
    let mut marker_chars: usize = 0;
    let mut j: usize = 0;
    proof {
        lemma_symbol_marker_chars_bound(texts, symbolic, 0);
    }
    while j < run_texts.len()
        invariant
            texts == run_texts@,
            symbolic == run_is_symbolic@,
            symbolic.len() == texts.len(),
            j <= run_texts.len(),
            marker_chars + symbol_marker_chars(texts, symbolic, j as int) == symbol_marker_chars(
                texts,
                symbolic,
                0,
            ),
            concat_texts(texts.take(j as int)).len() + symbol_marker_chars(texts, symbolic, j as int)
                <= concat_texts(texts).len(),
            marker_chars <= concat_texts(texts.take(j as int)).len(),
            concat_texts(texts).len() < usize::MAX,
        ensures
            marker_chars == symbol_marker_chars(texts, symbolic, 0),
        decreases run_texts.len() - j,
    {
        proof {
            lemma_concat_take_push(texts, j as int);
            lemma_symbol_marker_chars_bound(texts, symbolic, j + 1);
        }
        let len = collect_chars(run_texts[j].as_str()).len();
        if len == 0 {
            j = j + 1;
        } else if !run_is_symbolic[j] {
            break;
        } else {
            marker_chars = marker_chars + len;
            j = j + 1;
        }
    }
    if marker_chars == 0 {
        return None;
    }
    // The first character after the marker that is not white space.
    let mut body_start = marker_chars;
    while body_start < chars.len() && char_is_whitespace(chars[body_start])
        invariant
            chars@ == concat_texts(texts),
            marker_chars <= body_start,
            first_non_space_from(chars@, marker_chars as int) == first_non_space_from(
                chars@,
                body_start as int,
            ),
        decreases chars.len() - body_start,
    {
        body_start = body_start + 1;
    }
    if body_start >= chars.len() {
        return None;
    }
    Some((body_start, ListMarkerKind::Symbol))
}

/// Run `i` holds character `index`.
pub open spec fn holds_char(counts: Seq<usize>, i: int, index: int) -> bool {
    0 <= i < counts.len() && count_sum(counts, i) <= index < count_sum(counts, i) + counts[i]
}

/// The run that holds character `index`: the run whose characters span it
/// (runs without characters hold none).
pub open spec fn spec_run_at_char(counts: Seq<usize>, index: int) -> Option<int> {
    if exists|i: int| #[trigger] holds_char(counts, i, index) {
        Some(choose|i: int| #[trigger] holds_char(counts, i, index))
    } else {
        None
    }
}

/// The runs' character spans do not overlap, so at most one run holds a
/// character.
pub proof fn run_at_char_is_unique(counts: Seq<usize>, index: int, i: int, j: int)
    requires
        0 <= i < counts.len(),
        0 <= j < counts.len(),
        count_sum(counts, i) <= index < count_sum(counts, i) + counts[i],
        count_sum(counts, j) <= index < count_sum(counts, j) + counts[j],
    ensures
        i == j,
{
    if i < j {
        lemma_count_sum_monotone(counts, i + 1, j);
    } else if j < i {
        lemma_count_sum_monotone(counts, j + 1, i);
    }
}

/// The index of the run that holds character `index` of the paragraph
/// whose runs hold `run_char_counts` characters, if any run does.
pub fn find_source_run_index_at_char(run_char_counts: &Vec<usize>, index: usize) -> (found: Option<
    usize,
>)
    requires
        count_sum(run_char_counts@, run_char_counts@.len() as int) <= usize::MAX,
    ensures
        match found {
            Some(i) => i < run_char_counts@.len() && count_sum(run_char_counts@, i as int) <= index
                < count_sum(run_char_counts@, i as int) + run_char_counts@[i as int],
            None => spec_run_at_char(run_char_counts@, index as int) is None,
        },
        found matches Some(i) ==> spec_run_at_char(run_char_counts@, index as int) == Some(i as int),
{
    let ghost counts = run_char_counts@;
    let mut cursor: usize = 0;
    let mut i: usize = 0;
    while i < run_char_counts.len()
        invariant
            counts == run_char_counts@,
            count_sum(counts, counts.len() as int) <= usize::MAX,
            i <= counts.len(),
            cursor == count_sum(counts, i as int),
            forall|k: int| 0 <= k < i ==> !#[trigger] holds_char(counts, k, index as int),
        decreases counts.len() - i,
    {
        proof {
            lemma_count_sum_monotone(counts, i + 1, counts.len() as int);
        }
        let run_len = run_char_counts[i];
        let run_start = cursor;
        let run_end = cursor + run_len;
        if run_len > 0 && index >= run_start && index < run_end {
            proof {
                assert(holds_char(counts, i as int, index as int));
                let w = choose|w: int| #[trigger] holds_char(counts, w, index as int);
                run_at_char_is_unique(counts, index as int, i as int, w);
            }
            return Some(i);
        }
        cursor = run_end;
        i = i + 1;
    }
    None
}

/// The part `[from, to)` (in the run's own characters) of run `run` that a
/// character range covers.
pub struct RunSlice {
    pub run: usize,
    pub from: usize,
    pub to: usize,
}

pub open spec fn clamp_sub(a: int, b: int, len: int) -> int {
    let d = if a >= b {
        a - b
    } else {
        0
    };
    if d <= len {
        d
    } else {
        len
    }
}

/// The slices of the runs in `[0, i)` that the range `[start, end)` covers,
/// in order; runs without characters and runs outside the range give none.
pub open spec fn spec_range_slices(counts: Seq<usize>, start: int, end: int, i: int) -> Seq<(int, int, int)>
    decreases i,
{
    if i <= 0 || i > counts.len() {
        Seq::empty()
    } else {
        let rest = spec_range_slices(counts, start, end, i - 1);
        let k = i - 1;
        let len = counts[k] as int;
        let rs = count_sum(counts, k);
        let re = rs + len;
        let from = clamp_sub(start, rs, len);
        let to = clamp_sub(end, rs, len);
        if len == 0 || end <= rs || start >= re || from >= to {
            rest
        } else {
            rest.push((k, from, to))
        }
    }
}

pub open spec fn slice_view(s: RunSlice) -> (int, int, int) {
    (s.run as int, s.from as int, s.to as int)
}

/// The parts of the runs that the character range `[start, end)` covers,
/// in order; an empty range covers nothing.
pub fn plan_char_range_slices(run_char_counts: &Vec<usize>, start: usize, end: usize) -> (slices:
    Vec<RunSlice>)
    requires
        count_sum(run_char_counts@, run_char_counts@.len() as int) <= usize::MAX,
    ensures
        start >= end ==> slices@.len() == 0,
        start < end ==> slices@.map_values(|s: RunSlice| slice_view(s)) == spec_range_slices(
            run_char_counts@,
            start as int,
            end as int,
            run_char_counts@.len() as int,
        ),
{
    let mut slices: Vec<RunSlice> = Vec::new();
    if start >= end {
        return slices;
    }
    let ghost counts = run_char_counts@;
    let mut cursor: usize = 0;
    let mut i: usize = 0;
    while i < run_char_counts.len()
        invariant
            counts == run_char_counts@,
            count_sum(counts, counts.len() as int) <= usize::MAX,
            i <= counts.len(),
            cursor == count_sum(counts, i as int),
            slices@.map_values(|s: RunSlice| slice_view(s)) == spec_range_slices(
                counts,
                start as int,
                end as int,
                i as int,
            ),
        decreases counts.len() - i,
    {
        proof {
            lemma_count_sum_monotone(counts, i + 1, counts.len() as int);
        }
        let run_len = run_char_counts[i];
        let run_start = cursor;
        let run_end = cursor + run_len;
        cursor = run_end;
        let ghost before = slices@;
        if run_len > 0 && !(end <= run_start || start >= run_end) {
            let d_start = if start >= run_start { start - run_start } else { 0 };
            let from = if d_start <= run_len { d_start } else { run_len };
            let d_end = if end >= run_start { end - run_start } else { 0 };
            let to = if d_end <= run_len { d_end } else { run_len };
            if from < to {
                slices.push(RunSlice { run: i, from, to });
                assert(slices@.map_values(|s: RunSlice| slice_view(s)) =~= before.map_values(
                    |s: RunSlice| slice_view(s),
                ).push((i as int, from as int, to as int)));
            }
        }
        i = i + 1;
    }
    slices
}

/// A piece of a run's text, with the id it gets and the index of its run.
pub struct TextPiece {
    pub id: String,
    pub run_index: usize,
    pub text: String,
}

pub open spec fn piece_view(p: TextPiece) -> (Seq<char>, int, Seq<char>) {
    (p.id@, p.run_index as int, p.text@)
}

pub open spec fn marker_piece_id(line_key: Seq<char>, run_index: int) -> Seq<char> {
    line_key + seq![':', ':', 'm', 'a', 'r', 'k', 'e', 'r', ':', ':'] + decimal(run_index as nat)
}

pub open spec fn body_piece_id(line_key: Seq<char>, run_index: int) -> Seq<char> {
    line_key + seq![':', ':', 'b', 'o', 'd', 'y', ':', ':'] + decimal(run_index as nat)
}

/// The marker pieces and the body pieces of the first `i` runs when the body
/// starts at character `body_char_start`: a run that ends before the body
/// starts goes to the marker whole, a run that starts at or after it goes to
/// the body whole, and the run the start falls in is cut there.
pub open spec fn spec_split_pieces(
    texts: Seq<String>,
    line_key: Seq<char>,
    body_char_start: int,
    i: int,
) -> (Seq<(Seq<char>, int, Seq<char>)>, Seq<(Seq<char>, int, Seq<char>)>)
    decreases i,
{
    if i <= 0 || i > texts.len() {
        (Seq::empty(), Seq::empty())
    } else {
        let (m, b) = spec_split_pieces(texts, line_key, body_char_start, i - 1);
        let k = i - 1;
        let t = texts[k]@;
        let start = concat_texts(texts.take(k)).len() as int;
        let end = start + t.len();
        if end <= body_char_start {
            (m.push((marker_piece_id(line_key, k), k, t)), b)
        } else if start >= body_char_start {
            (m, b.push((body_piece_id(line_key, k), k, t)))
        } else {
            let cut = body_char_start - start;
            (
                m.push((marker_piece_id(line_key, k), k, t.take(cut))),
                b.push((body_piece_id(line_key, k), k, t.skip(cut))),
            )
        }
    }
}

pub open spec fn piece_texts(pieces: Seq<(Seq<char>, int, Seq<char>)>) -> Seq<char>
    decreases pieces.len(),
{
    if pieces.len() == 0 {
        Seq::empty()
    } else {
        piece_texts(pieces.drop_last()) + pieces.last().2
    }
}

fn piece_id(line_key: &str, marker: bool, run_index: usize) -> (id: String)
    ensures
        id@ == if marker {
            marker_piece_id(line_key@, run_index as int)
        } else {
            body_piece_id(line_key@, run_index as int)
        },
{
    proof {
        reveal_strlit("::marker::");
        reveal_strlit("::body::");
    }
    let mut id = to_owned_string(line_key);
    if marker {
        push_str(&mut id, "::marker::");
    } else {
        push_str(&mut id, "::body::");
    }
    push_decimal(&mut id, run_index as u64);
    id
}

/// The characters `[from, to)` of `chars` as a string.
pub(crate) fn chars_text(chars: &Vec<char>, from: usize, to: usize) -> (text: String)
    requires
        from <= to <= chars.len(),
    ensures
        text@ == chars@.subrange(from as int, to as int),
{
    let mut text = String::new();
    let mut i = from;
    while i < to
        invariant
            from <= i <= to <= chars.len(),
            text@ == chars@.subrange(from as int, i as int),
        decreases to - i,
    {
        crate::chars::string_push(&mut text, chars[i]);
        assert(chars@.subrange(from as int, i + 1) =~= chars@.subrange(from as int, i as int).push(
            chars@[i as int],
        ));
        i = i + 1;
    }
    text
}

proof fn lemma_piece_views_push(ps: Seq<TextPiece>, p: TextPiece)
    ensures
        ps.push(p).map_values(|q: TextPiece| piece_view(q)) == ps.map_values(
            |q: TextPiece| piece_view(q),
        ).push(piece_view(p)),
{
    assert(ps.push(p).map_values(|q: TextPiece| piece_view(q)) =~= ps.map_values(
        |q: TextPiece| piece_view(q),
    ).push(piece_view(p)));
}

proof fn lemma_concat_step(texts: Seq<String>, k: int)
    requires
        0 <= k < texts.len(),
    ensures
        concat_texts(texts.take(k + 1)) == concat_texts(texts.take(k)) + texts[k]@,
{
    assert(texts.take(k + 1).drop_last() =~= texts.take(k));
}

proof fn lemma_concat_grows(texts: Seq<String>, a: int, b: int)
    requires
        0 <= a <= b <= texts.len(),
    ensures
        concat_texts(texts.take(a)).len() <= concat_texts(texts.take(b)).len(),
    decreases b - a,
{
    if a < b {
        lemma_concat_grows(texts, a, b - 1);
        lemma_concat_step(texts, b - 1);
    }
}

/// Splits the texts of a line's runs at the character where the body starts
/// (see `spec_split_pieces`); the pieces are named `<line>::marker::<run>` and
/// `<line>::body::<run>`.
pub fn split_runs_by_body_start(run_texts: &Vec<String>, body_char_start: usize, line_key: &str) -> (pieces: (
    Vec<TextPiece>,
    Vec<TextPiece>,
))
    requires
        concat_texts(run_texts@).len() <= usize::MAX,
    ensures
        (
            pieces.0@.map_values(|q: TextPiece| piece_view(q)),
            pieces.1@.map_values(|q: TextPiece| piece_view(q)),
        ) == spec_split_pieces(
            run_texts@,
            line_key@,
            body_char_start as int,
            run_texts@.len() as int,
        ),
{
    let ghost texts = run_texts@;
    let mut marker: Vec<TextPiece> = Vec::new();
    let mut body: Vec<TextPiece> = Vec::new();
    let mut cursor: usize = 0;
    let mut i: usize = 0;
    while i < run_texts.len()
        invariant
            texts == run_texts@,
            concat_texts(texts).len() <= usize::MAX,
            i <= texts.len(),
            cursor == concat_texts(texts.take(i as int)).len(),
            (
                marker@.map_values(|q: TextPiece| piece_view(q)),
                body@.map_values(|q: TextPiece| piece_view(q)),
            ) == spec_split_pieces(texts, line_key@, body_char_start as int, i as int),
        decreases texts.len() - i,
    {
        proof {
            lemma_concat_step(texts, i as int);
            lemma_concat_grows(texts, i + 1, texts.len() as int);
            assert(texts.take(texts.len() as int) =~= texts);
        }
        let chars = collect_chars(run_texts[i].as_str());
        let run_len = chars.len();
        let run_start = cursor;
        let run_end = cursor + run_len;
        let ghost before_m = marker@;
        let ghost before_b = body@;
        if run_end <= body_char_start {
            let p = TextPiece {
                id: piece_id(line_key, true, i),
                run_index: i,
                text: run_texts[i].clone(),
            };
            let ghost added = p;
            marker.push(p);
            proof {
                lemma_piece_views_push(before_m, added);
            }
        } else if run_start >= body_char_start {
            let p = TextPiece {
                id: piece_id(line_key, false, i),
                run_index: i,
                text: run_texts[i].clone(),
            };
            let ghost added = p;
            body.push(p);
            proof {
                lemma_piece_views_push(before_b, added);
            }
        } else {
            let cut = body_char_start - run_start;
            let m = TextPiece { id: piece_id(line_key, true, i), run_index: i, text: chars_text(&chars, 0, cut) };
            let b = TextPiece {
                id: piece_id(line_key, false, i),
                run_index: i,
                text: chars_text(&chars, cut, run_len),
            };
            assert(m.text@ =~= texts[i as int]@.take(cut as int));
            assert(b.text@ =~= texts[i as int]@.skip(cut as int));
            let ghost am = m;
            let ghost ab = b;
            marker.push(m);
            body.push(b);
            proof {
                lemma_piece_views_push(before_m, am);
                lemma_piece_views_push(before_b, ab);
            }
        }
        cursor = run_end;
        i = i + 1;
    }
    (marker, body)
}

proof fn lemma_piece_texts_push(ps: Seq<(Seq<char>, int, Seq<char>)>, x: (Seq<char>, int, Seq<char>))
    ensures
        piece_texts(ps.push(x)) == piece_texts(ps) + x.2,
{
    assert(ps.push(x).drop_last() =~= ps);
}

/// Cutting a line at the body start keeps its text: the marker pieces spell
/// the characters before the cut and the body pieces the characters from it.
pub proof fn split_pieces_keep_the_text(
    texts: Seq<String>,
    line_key: Seq<char>,
    body_char_start: int,
    i: int,
)
    requires
        0 <= i <= texts.len(),
        0 <= body_char_start,
    ensures
        ({
            let (m, b) = spec_split_pieces(texts, line_key, body_char_start, i);
            let full = concat_texts(texts.take(i));
            let cut = if body_char_start <= full.len() {
                body_char_start
            } else {
                full.len() as int
            };
            &&& piece_texts(m) == full.take(cut)
            &&& piece_texts(b) == full.skip(cut)
        }),
    decreases i,
{
    if i == 0 {
        assert(concat_texts(texts.take(0)) =~= Seq::<char>::empty());
    } else {
        split_pieces_keep_the_text(texts, line_key, body_char_start, i - 1);
        let k = i - 1;
        lemma_concat_step(texts, k);
        let (m0, b0) = spec_split_pieces(texts, line_key, body_char_start, k);
        let (m, b) = spec_split_pieces(texts, line_key, body_char_start, i);
        let prev = concat_texts(texts.take(k));
        let t = texts[k]@;
        let full = concat_texts(texts.take(i));
        assert(full == prev + t);
        let start = prev.len() as int;
        let end = start + t.len();
        let cut0 = if body_char_start <= prev.len() {
            body_char_start
        } else {
            prev.len() as int
        };
        if end <= body_char_start {
            assert(m == m0.push((marker_piece_id(line_key, k), k, t)));
            lemma_piece_texts_push(m0, (marker_piece_id(line_key, k), k, t));
            assert(b == b0);
            assert(full.take(end) =~= prev.take(cut0) + t);
            assert(full.skip(end) =~= prev.skip(cut0));
        } else if start >= body_char_start {
            assert(b == b0.push((body_piece_id(line_key, k), k, t)));
            lemma_piece_texts_push(b0, (body_piece_id(line_key, k), k, t));
            assert(m == m0);
            assert(full.take(body_char_start) =~= prev.take(cut0));
            assert(full.skip(body_char_start) =~= prev.skip(cut0) + t);
        } else {
            let c = body_char_start - start;
            lemma_piece_texts_push(m0, (marker_piece_id(line_key, k), k, t.take(c)));
            lemma_piece_texts_push(b0, (body_piece_id(line_key, k), k, t.skip(c)));
            assert(full.take(body_char_start) =~= prev + t.take(c));
            assert(full.skip(body_char_start) =~= t.skip(c));
            assert(prev.skip(cut0) =~= Seq::<char>::empty());
            assert(prev.take(cut0) =~= prev);
        }
    }
}

/// The nearest run to run `a` whose style may serve the body, searching at
/// distance `d` and beyond: at each distance the run before `a` first, then
/// the run after it.
pub open spec fn nearest_good_run(good: Seq<bool>, a: int, d: int) -> Option<int>
    decreases good.len() + a + 1 - d,
{
    if a < 0 || a >= good.len() || d < 1 || (a - d < 0 && a + d >= good.len()) {
        None
    } else if a - d >= 0 && a - d < good.len() && good[a - d] {
        Some(a - d)
    } else if 0 <= a + d < good.len() && good[a + d] {
        Some(a + d)
    } else {
        nearest_good_run(good, a, d + 1)
    }
}

/// The run whose style the draft takes at character `anchor_index`: the run
/// that holds the character if its style may serve the body, else the
/// nearest such run around it; `None` (the template style) when no run holds
/// the character or no run's style may serve.
pub open spec fn spec_style_run(counts: Seq<usize>, good: Seq<bool>, anchor_index: int) -> Option<
    int,
> {
    match spec_run_at_char(counts, anchor_index) {
        None => None,
        Some(a) => if good[a] {
            Some(a)
        } else {
            nearest_good_run(good, a, 1)
        },
    }
}

/// Picks the run that supplies the draft's style at character
/// `anchor_index` (see `spec_style_run`); `run_is_good` says of each run
/// whether its style may serve the body.
pub fn select_style_run(run_char_counts: &Vec<usize>, run_is_good: &Vec<bool>, anchor_index: usize) -> (found: Option<
    usize,
>)
    requires
        run_is_good@.len() == run_char_counts@.len(),
        count_sum(run_char_counts@, run_char_counts@.len() as int) <= usize::MAX,
    ensures
        match found {
            Some(i) => spec_style_run(run_char_counts@, run_is_good@, anchor_index as int) == Some(
                i as int,
            ),
            None => spec_style_run(run_char_counts@, run_is_good@, anchor_index as int) is None,
        },
{
    let anchor = match find_source_run_index_at_char(run_char_counts, anchor_index) {
        Some(a) => a,
        None => return None,
    };
    if run_is_good[anchor] {
        return Some(anchor);
    }
    let n = run_is_good.len();
    let ghost good = run_is_good@;
    let mut d: usize = 1;
    while d <= anchor || d < n - anchor
        invariant
            good == run_is_good@,
            n == good.len(),
            anchor < n,
            spec_run_at_char(run_char_counts@, anchor_index as int) == Some(anchor as int),
            !good[anchor as int],
            1 <= d <= n,
            nearest_good_run(good, anchor as int, 1) == nearest_good_run(good, anchor as int, d as int),
        decreases n - d,
    {
        if d <= anchor && run_is_good[anchor - d] {
            return Some(anchor - d);
        }
        if d < n - anchor && run_is_good[anchor + d] {
            return Some(anchor + d);
        }
        d = d + 1;
    }
    None
}

/// The strategy that found a list paragraph's marker, in the order they are
/// tried.
#[derive(Clone, Copy, PartialEq, Eq, Structural, Debug)]
pub enum MarkerStrategy {
    NoStrategy,
    Semantic,
    SymbolicFont,
    Geometric,
    CrossParagraph,
}

/// Where a list paragraph is cut into marker and body, and of what kind the
/// marker is: from the list semantics of its text when they find a marker
/// with a body behind it, otherwise from a leading run in a symbol font.
pub fn choose_marker_cut(
    semantic_has_marker: bool,
    semantic_body_start: usize,
    semantic_kind: ListMarkerKind,
    run_texts: &Vec<String>,
    run_is_symbolic: &Vec<bool>,
) -> (cut: Option<(usize, ListMarkerKind, MarkerStrategy)>)
    requires
        run_is_symbolic.len() == run_texts.len(),
        concat_texts(run_texts@).len() < usize::MAX,
    ensures
        semantic_has_marker && semantic_body_start > 0 ==> cut == Some(
            (semantic_body_start, semantic_kind, MarkerStrategy::Semantic),
        ),
        !(semantic_has_marker && semantic_body_start > 0) ==> match cut {
            Some((start, kind, strategy)) => strategy == MarkerStrategy::SymbolicFont && kind
                == ListMarkerKind::Symbol && spec_symbol_marker_body_start(
                run_texts@,
                run_is_symbolic@,
            ) == Some(start as int),
            None => spec_symbol_marker_body_start(run_texts@, run_is_symbolic@) is None,
        },
{
    if semantic_has_marker && semantic_body_start > 0 {
        return Some((semantic_body_start, semantic_kind, MarkerStrategy::Semantic));
    }
    match detect_symbolic_font_marker(run_texts, run_is_symbolic) {
        Some((start, kind)) => Some((start, kind, MarkerStrategy::SymbolicFont)),
        None => None,
    }
}

/// The strategy that stands once the split is made: the cut's strategy when
/// the split produced a marker; otherwise the geometric synthesis on the
/// paragraph, then the synthesis across paragraphs, are tried in turn (their
/// outcomes are `geometric_marker` and `cross_paragraph_marker`).
pub fn marker_strategy_after_split(
    cut_strategy: MarkerStrategy,
    split_has_marker: bool,
    geometric_marker: bool,
    cross_paragraph_marker: bool,
) -> (strategy: MarkerStrategy)
    ensures
        strategy == if split_has_marker {
            cut_strategy
        } else if geometric_marker {
            MarkerStrategy::Geometric
        } else if cross_paragraph_marker {
            MarkerStrategy::CrossParagraph
        } else {
            cut_strategy
        },
{
    if split_has_marker {
        cut_strategy
    } else if geometric_marker {
        MarkerStrategy::Geometric
    } else if cross_paragraph_marker {
        MarkerStrategy::CrossParagraph
    } else {
        cut_strategy
    }
}

} // verus!
