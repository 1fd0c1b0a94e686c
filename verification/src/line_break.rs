//! Line breaking rules of the flow layout: the CJK punctuation that may not
//! start or end a line, the decision whether a run moves to the next line,
//! and the lookup of the run that holds a text offset of a laid-out
//! paragraph.

use vstd::prelude::*;
use crate::run_ranges::count_sum;

verus! {

/// Punctuation that may not start a line.
pub open spec fn spec_is_no_start(c: char) -> bool {
    match c {
        '\u{21}' | '\u{25}' | '\u{29}' | '\u{2C}' | '\u{2E}' | '\u{3A}' | '\u{3B}' | '\u{3F}' |
        '\u{5D}' | '\u{7D}' | '\u{A2}' | '\u{B0}' | '\u{27}' | '\u{22}' | '\u{2020}' |
        '\u{2021}' | '\u{203A}' | '\u{BB}' | '\u{3009}' | '\u{300B}' | '\u{300D}' |
        '\u{300F}' | '\u{3011}' | '\u{3015}' | '\u{3017}' | '\u{301E}' | '\u{301F}' |
        '\u{2019}' | '\u{FE42}' | '\u{FE41}' | '\u{FE43}' | '\u{FE44}' | '\u{FF5E}' |
        '\u{7E}' | '\u{FF01}' | '\u{FF05}' | '\u{FF09}' | '\u{FF0C}' | '\u{FF0E}' |
        '\u{FF1A}' | '\u{FF1B}' | '\u{FF1F}' | '\u{FF3D}' | '\u{FF5D}' | '\u{3001}' | '\u{3002}' => true,
        _ => false,
    }
}

/// Punctuation that may not end a line.
pub open spec fn spec_is_no_end(c: char) -> bool {
    match c {
        '\u{28}' | '\u{5B}' | '\u{7B}' | '\u{A3}' | '\u{24}' | '\u{A5}' | '\u{40}' |
        '\u{3008}' | '\u{300A}' | '\u{300C}' | '\u{300E}' | '\u{3010}' | '\u{3014}' |
        '\u{3016}' | '\u{301D}' | '\u{2019}' | '\u{FE43}' | '\u{FE42}' | '\u{FE41}' => true,
        _ => false,
    }
}

pub fn is_no_start(c: char) -> (b: bool)
    ensures
        b == spec_is_no_start(c),
{
    match c {
        '\u{21}' | '\u{25}' | '\u{29}' | '\u{2C}' | '\u{2E}' | '\u{3A}' | '\u{3B}' | '\u{3F}' |
        '\u{5D}' | '\u{7D}' | '\u{A2}' | '\u{B0}' | '\u{27}' | '\u{22}' | '\u{2020}' |
        '\u{2021}' | '\u{203A}' | '\u{BB}' | '\u{3009}' | '\u{300B}' | '\u{300D}' |
        '\u{300F}' | '\u{3011}' | '\u{3015}' | '\u{3017}' | '\u{301E}' | '\u{301F}' |
        '\u{2019}' | '\u{FE42}' | '\u{FE41}' | '\u{FE43}' | '\u{FE44}' | '\u{FF5E}' |
        '\u{7E}' | '\u{FF01}' | '\u{FF05}' | '\u{FF09}' | '\u{FF0C}' | '\u{FF0E}' |
        '\u{FF1A}' | '\u{FF1B}' | '\u{FF1F}' | '\u{FF3D}' | '\u{FF5D}' | '\u{3001}' | '\u{3002}' => true,
        _ => false,
    }
}

pub fn is_no_end(c: char) -> (b: bool)
    ensures
        b == spec_is_no_end(c),
{
    match c {
        '\u{28}' | '\u{5B}' | '\u{7B}' | '\u{A3}' | '\u{24}' | '\u{A5}' | '\u{40}' |
        '\u{3008}' | '\u{300A}' | '\u{300C}' | '\u{300E}' | '\u{3010}' | '\u{3014}' |
        '\u{3016}' | '\u{301D}' | '\u{2019}' | '\u{FE43}' | '\u{FE42}' | '\u{FE41}' => true,
        _ => false,
    }
}

/// Whether a run moves to a new line: only when it is not the first run of
/// its line and does not fit, and neither its first character may not start a
/// line nor the last character of the line so far may not end one.
pub open spec fn spec_run_breaks_line(
    fits: bool,
    is_first_run_in_line: bool,
    run_first_char: Option<char>,
    line_last_char: Option<char>,
) -> bool {
    &&& !is_first_run_in_line
    &&& !fits
    &&& !(run_first_char matches Some(c) && spec_is_no_start(c))
    &&& !(line_last_char matches Some(c) && spec_is_no_end(c))
}

/// The line break decision of the flow layout (see `spec_run_breaks_line`);
/// `fits` says whether the run's width fits in what is left of the line.
pub fn run_breaks_line(
    fits: bool,
    is_first_run_in_line: bool,
    run_first_char: Option<char>,
    line_last_char: Option<char>,
) -> (b: bool)
    ensures
        b == spec_run_breaks_line(fits, is_first_run_in_line, run_first_char, line_last_char),
{
    let mut should_break = !is_first_run_in_line && !fits;
    if should_break {
        match run_first_char {
            Some(c) => {
                if is_no_start(c) {
                    should_break = false;
                }
            },
            None => {},
        }
        match line_last_char {
            Some(c) => {
                if is_no_end(c) {
                    should_break = false;
                }
            },
            None => {},
        }
    }
    should_break
}

/// A run that may not start a line never starts one after another run.
pub proof fn no_start_punctuation_stays_on_the_line(
    fits: bool,
    line_last_char: Option<char>,
    c: char,
)
    requires
        spec_is_no_start(c),
    ensures
        !spec_run_breaks_line(fits, false, Some(c), line_last_char),
{
}

/// The punctuation that may not start a line, character by character as the
/// layout rules list it: `!%),.:;?]}¢°'"†‡›»〉》」』】〕〗〞〟’﹂﹁﹂﹃﹄～~！％），．：；？］｝、。`.
pub open spec fn listed_no_start(c: char) -> bool {
    c == '\u{21}' || c == '\u{25}' || c == '\u{29}' || c == '\u{2C}' || c == '\u{2E}' ||
    c == '\u{3A}' || c == '\u{3B}' || c == '\u{3F}' || c == '\u{5D}' || c == '\u{7D}' ||
    c == '\u{A2}' || c == '\u{B0}' || c == '\u{27}' || c == '\u{22}' || c == '\u{2020}' ||
    c == '\u{2021}' || c == '\u{203A}' || c == '\u{BB}' || c == '\u{3009}' ||
    c == '\u{300B}' || c == '\u{300D}' || c == '\u{300F}' || c == '\u{3011}' ||
    c == '\u{3015}' || c == '\u{3017}' || c == '\u{301E}' || c == '\u{301F}' ||
    c == '\u{2019}' || c == '\u{FE42}' || c == '\u{FE41}' || c == '\u{FE43}' ||
    c == '\u{FE44}' || c == '\u{FF5E}' || c == '\u{7E}' || c == '\u{FF01}' ||
    c == '\u{FF05}' || c == '\u{FF09}' || c == '\u{FF0C}' || c == '\u{FF0E}' ||
    c == '\u{FF1A}' || c == '\u{FF1B}' || c == '\u{FF1F}' || c == '\u{FF3D}' ||
    c == '\u{FF5D}' || c == '\u{3001}' || c == '\u{3002}'
}

/// The punctuation that may not end a line, as the layout rules list it:
/// `([{£$¥@〈《「『【〔〖〝’﹃﹂﹁`.
pub open spec fn listed_no_end(c: char) -> bool {
    c == '\u{28}' || c == '\u{5B}' || c == '\u{7B}' || c == '\u{A3}' || c == '\u{24}' ||
    c == '\u{A5}' || c == '\u{40}' || c == '\u{3008}' || c == '\u{300A}' || c == '\u{300C}' ||
    c == '\u{300E}' || c == '\u{3010}' || c == '\u{3014}' || c == '\u{3016}' ||
    c == '\u{301D}' || c == '\u{2019}' || c == '\u{FE43}' || c == '\u{FE42}' || c == '\u{FE41}'
}

/// A character may not start (end) a line exactly when the layout rules list
/// it as such.
pub proof fn line_edge_punctuation_is_the_listed_one(c: char)
    ensures
        spec_is_no_start(c) == listed_no_start(c),
        spec_is_no_end(c) == listed_no_end(c),
{
}

/// A run moves to a new line exactly when it is not the first run of its
/// line, does not fit, does not start with punctuation listed as unable to
/// start a line, and the line so far does not end with punctuation listed as
/// unable to end one.
pub proof fn run_breaks_line_by_the_listed_punctuation(
    fits: bool,
    is_first_run_in_line: bool,
    run_first_char: Option<char>,
    line_last_char: Option<char>,
)
    ensures
        spec_run_breaks_line(fits, is_first_run_in_line, run_first_char, line_last_char) == (
        !is_first_run_in_line && !fits && !(run_first_char matches Some(c) && listed_no_start(c))
            && !(line_last_char matches Some(d) && listed_no_end(d))),
{
    match run_first_char {
        Some(c) => line_edge_punctuation_is_the_listed_one(c),
        None => {},
    }
    match line_last_char {
        Some(d) => line_edge_punctuation_is_the_listed_one(d),
        None => {},
    }
}

/// The runs of the laid-out lines in reading order, each as (line index,
/// run index, number of characters).
pub open spec fn flat_runs(lines: Seq<Vec<usize>>) -> Seq<(int, int, usize)>
    decreases lines.len(),
{
    if lines.len() == 0 {
        Seq::empty()
    } else {
        let l = lines.len() - 1;
        flat_runs(lines.drop_last()) + Seq::new(
            lines.last()@.len(),
            |r: int| (l as int, r, lines.last()@[r]),
        )
    }
}

pub open spec fn flat_counts(lines: Seq<Vec<usize>>) -> Seq<usize> {
    flat_runs(lines).map_values(|t: (int, int, usize)| t.2)
}

/// The first run from `k` on whose end is at or after `offset`.
pub open spec fn first_covering(counts: Seq<usize>, offset: int, k: int) -> Option<int>
    decreases counts.len() - k,
{
    if k < 0 || k >= counts.len() {
        None
    } else if offset <= count_sum(counts, k) + counts[k] {
        Some(k)
    } else {
        first_covering(counts, offset, k + 1)
    }
}

/// Where text offset `offset` of a laid-out paragraph falls, as (line, run,
/// offset within the run): the first run that ends at or after the offset;
/// past the end, the end of the last run of the last line; `(0, 0, 0)` for a
/// paragraph without lines.
pub open spec fn spec_run_at_text_offset(lines: Seq<Vec<usize>>, offset: int) -> (int, int, int) {
    if lines.len() == 0 {
        (0, 0, 0)
    } else {
        let counts = flat_counts(lines);
        match first_covering(counts, offset, 0) {
            Some(k) => (
                flat_runs(lines)[k].0,
                flat_runs(lines)[k].1,
                if offset >= count_sum(counts, k) {
                    offset - count_sum(counts, k)
                } else {
                    0
                },
            ),
            None => {
                let last = lines.len() - 1;
                let n = lines[last]@.len();
                if n > 0 {
                    (last, n - 1, lines[last]@[n - 1] as int)
                } else {
                    (last, 0, 0)
                }
            },
        }
    }
}

proof fn lemma_flat_prefix(lines: Seq<Vec<usize>>, a: int)
    requires
        0 <= a <= lines.len(),
    ensures
        flat_runs(lines.take(a)).len() <= flat_runs(lines).len(),
        forall|i: int|
            0 <= i < flat_runs(lines.take(a)).len() ==> #[trigger] flat_runs(lines)[i]
                == flat_runs(lines.take(a))[i],
    decreases lines.len(),
{
    if a == lines.len() {
        assert(lines.take(a) =~= lines);
    } else {
        lemma_flat_prefix(lines.drop_last(), a);
        assert(lines.drop_last().take(a) =~= lines.take(a));
    }
}

proof fn lemma_flat_step(lines: Seq<Vec<usize>>, l: int)
    requires
        0 <= l < lines.len(),
    ensures
        flat_runs(lines.take(l + 1)) == flat_runs(lines.take(l)) + Seq::new(
            lines[l]@.len(),
            |r: int| (l, r, lines[l]@[r]),
        ),
{
    assert(lines.take(l + 1).drop_last() =~= lines.take(l));
    assert(Seq::new(lines.take(l + 1).last()@.len(), |r: int| (l, r, lines.take(l + 1).last()@[r]))
        =~= Seq::new(lines[l]@.len(), |r: int| (l, r, lines[l]@[r])));
}

/// The line, run and offset within the run where `offset` falls in a
/// paragraph whose lines hold runs of `line_run_char_counts` characters
/// (see `spec_run_at_text_offset`).
pub fn find_run_at_text_offset(line_run_char_counts: &Vec<Vec<usize>>, offset: usize) -> (found: (
    usize,
    usize,
    usize,
))
    requires
        count_sum(flat_counts(line_run_char_counts@), flat_counts(line_run_char_counts@).len() as int)
            <= usize::MAX,
    ensures
        (found.0 as int, found.1 as int, found.2 as int) == spec_run_at_text_offset(
            line_run_char_counts@,
            offset as int,
        ),
{
    let ghost lines = line_run_char_counts@;
    let ghost counts = flat_counts(lines);
    if line_run_char_counts.len() == 0 {
        return (0, 0, 0);
    }
    let mut current: usize = 0;
    let ghost mut k: int = 0;
    let mut l: usize = 0;
    while l < line_run_char_counts.len()
        invariant
            lines == line_run_char_counts@,
            lines.len() > 0,
            counts == flat_counts(lines),
            count_sum(counts, counts.len() as int) <= usize::MAX,
            l <= lines.len(),
            k == flat_runs(lines.take(l as int)).len(),
            current == count_sum(counts, k),
            first_covering(counts, offset as int, 0) == first_covering(counts, offset as int, k),
        decreases lines.len() - l,
    {
        let runs = &line_run_char_counts[l];
        proof {
            lemma_flat_step(lines, l as int);
            lemma_flat_prefix(lines, l + 1);
        }
        let mut r: usize = 0;
        while r < runs.len()
            invariant
                lines == line_run_char_counts@,
                counts == flat_counts(lines),
                count_sum(counts, counts.len() as int) <= usize::MAX,
                l < lines.len(),
                runs == lines[l as int],
                r <= runs.len(),
                k == flat_runs(lines.take(l as int)).len() + r,
                flat_runs(lines.take(l + 1)) == flat_runs(lines.take(l as int)) + Seq::new(
                    lines[l as int]@.len(),
                    |q: int| (l as int, q, lines[l as int]@[q]),
                ),
                flat_runs(lines.take(l + 1)).len() <= flat_runs(lines).len(),
                forall|i: int|
                    0 <= i < flat_runs(lines.take(l + 1)).len() ==> #[trigger] flat_runs(lines)[i]
                        == flat_runs(lines.take(l + 1))[i],
                current == count_sum(counts, k),
                first_covering(counts, offset as int, 0) == first_covering(counts, offset as int, k),
            decreases runs.len() - r,
        {
            assert(flat_runs(lines.take(l + 1))[k] == (l as int, r as int, runs@[r as int]));
            assert(flat_runs(lines)[k] == (l as int, r as int, runs@[r as int]));
            assert(counts[k] == runs@[r as int]);
            proof {
                crate::run_ranges::lemma_count_sum_monotone(counts, k + 1, counts.len() as int);
            }
            let c = runs[r];
            if offset <= current + c {
                return (l, r, offset.saturating_sub(current));
            }
            current = current + c;
            proof {
                k = k + 1;
            }
            r = r + 1;
        }
        assert(lines.take(l + 1).len() == l + 1);
        l = l + 1;
    }
    assert(lines.take(lines.len() as int) =~= lines);
    let last = line_run_char_counts.len() - 1;
    let runs = &line_run_char_counts[last];
    if runs.len() > 0 {
        (last, runs.len() - 1, runs[runs.len() - 1])
    } else {
        (last, 0, 0)
    }
}

} // verus!
