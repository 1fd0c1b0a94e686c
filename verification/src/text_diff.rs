//! Text diff and index mapping between the visual source text (which may hold
//! synthesized spaces) and the raw text of the runs.
//!
//! The index map walks both character sequences with two cursors. At every
//! step both cursors advance over a matching character; a space that only one
//! side has is skipped on that side; on a mismatch of two non-space characters
//! the cursor with the nearer realignment point jumps to it. Every index that a
//! cursor steps over is mapped to the current position of the other cursor.

use vstd::prelude::*;
use crate::chars::collect_chars;

verus! {

/// The smallest offset `i` with `lo <= i < hi` such that `s[base + i] == c`.
pub open spec fn first_match_from(s: Seq<char>, base: int, lo: int, hi: int, c: char) -> Option<int>
    decreases hi - lo,
{
    if lo >= hi {
        None
    } else if s[base + lo] == c {
        Some(lo)
    } else {
        first_match_from(s, base, lo + 1, hi, c)
    }
}

pub proof fn lemma_first_match_bounds(s: Seq<char>, base: int, lo: int, hi: int, c: char)
    ensures
        first_match_from(s, base, lo, hi, c) matches Some(i) ==> {
            &&& lo <= i < hi
            &&& s[base + i] == c
            &&& forall|j: int| base + lo <= j < base + i ==> s[j] != c
        },
        first_match_from(s, base, lo, hi, c) is None ==> forall|j: int|
            base + lo <= j < base + hi ==> s[j] != c,
    decreases hi - lo,
{
    if lo < hi && s[base + lo] != c {
        lemma_first_match_bounds(s, base, lo + 1, hi, c);
    }
}

/// How far the source cursor and the runs cursor advance from `(s, r)`.
pub open spec fn align_step(src: Seq<char>, runs: Seq<char>, s: int, r: int) -> (int, int) {
    let sc = src[s];
    let rc = runs[r];
    if sc == rc {
        (1, 1)
    } else if sc == ' ' {
        (1, 0)
    } else if rc == ' ' {
        (0, 1)
    } else {
        let found_in_source = first_match_from(src, s, 1, src.len() - s, rc);
        let found_in_runs = first_match_from(runs, r, 1, runs.len() - r, sc);
        match (found_in_source, found_in_runs) {
            (Some(i), Some(j)) => if i <= j {
                (i, 0)
            } else {
                (0, j)
            },
            (Some(i), None) => (i, 0),
            (None, Some(j)) => (0, j),
            (None, None) => (1, 1),
        }
    }
}

pub proof fn lemma_align_step_bounds(src: Seq<char>, runs: Seq<char>, s: int, r: int)
    requires
        0 <= s < src.len(),
        0 <= r < runs.len(),
    ensures
        0 <= align_step(src, runs, s, r).0 <= src.len() - s,
        0 <= align_step(src, runs, s, r).1 <= runs.len() - r,
        align_step(src, runs, s, r).0 + align_step(src, runs, s, r).1 >= 1,
{
    lemma_first_match_bounds(src, s, 1, src.len() - s, runs[r]);
    lemma_first_match_bounds(runs, r, 1, runs.len() - r, src[s]);
}

/// `n` copies of `v`.
pub open spec fn repeat_index(v: int, n: int) -> Seq<usize> {
    Seq::new(n as nat, |k: int| v as usize)
}

/// The entries of both maps from cursor positions `(s, r)` onwards:
/// `.0` holds the source-to-runs entries for source indices `s..=src.len()`,
/// `.1` the runs-to-source entries for runs indices `r..=runs.len()`.
pub open spec fn index_maps_from(src: Seq<char>, runs: Seq<char>, s: int, r: int) -> (
    Seq<usize>,
    Seq<usize>,
)
    decreases src.len() - s + runs.len() - r,
{
    if 0 <= s < src.len() && 0 <= r < runs.len() {
        let step = align_step(src, runs, s, r);
        proof {
            lemma_align_step_bounds(src, runs, s, r);
        }
        let rest = index_maps_from(src, runs, s + step.0, r + step.1);
        (repeat_index(r, step.0) + rest.0, repeat_index(s, step.1) + rest.1)
    } else {
        (
            repeat_index(r, src.len() - s).push(runs.len() as usize),
            repeat_index(s, runs.len() - r).push(src.len() as usize),
        )
    }
}

/// The pair `(source_to_runs, runs_to_source)` for two character sequences.
pub open spec fn index_maps(src: Seq<char>, runs: Seq<char>) -> (Seq<usize>, Seq<usize>) {
    index_maps_from(src, runs, 0, 0)
}

/// Shape of the maps from any reachable cursor position: lengths, range of
/// the entries, order, and the final entries.
pub proof fn lemma_index_maps_from_shape(src: Seq<char>, runs: Seq<char>, s: int, r: int)
    requires
        0 <= s <= src.len(),
        0 <= r <= runs.len(),
        src.len() < usize::MAX,
        runs.len() < usize::MAX,
    ensures
        index_maps_from(src, runs, s, r).0.len() == src.len() - s + 1,
        index_maps_from(src, runs, s, r).1.len() == runs.len() - r + 1,
        forall|k: int|
            0 <= k < index_maps_from(src, runs, s, r).0.len() ==> r <= #[trigger] index_maps_from(
                src,
                runs,
                s,
                r,
            ).0[k] <= runs.len(),
        forall|k: int|
            0 <= k < index_maps_from(src, runs, s, r).1.len() ==> s <= #[trigger] index_maps_from(
                src,
                runs,
                s,
                r,
            ).1[k] <= src.len(),
        forall|a: int, b: int|
            0 <= a <= b < index_maps_from(src, runs, s, r).0.len() ==> index_maps_from(
                src,
                runs,
                s,
                r,
            ).0[a] <= index_maps_from(src, runs, s, r).0[b],
        forall|a: int, b: int|
            0 <= a <= b < index_maps_from(src, runs, s, r).1.len() ==> index_maps_from(
                src,
                runs,
                s,
                r,
            ).1[a] <= index_maps_from(src, runs, s, r).1[b],
        index_maps_from(src, runs, s, r).0.last() == runs.len(),
        index_maps_from(src, runs, s, r).1.last() == src.len(),
    decreases src.len() - s + runs.len() - r,
{
    if s < src.len() && r < runs.len() {
        lemma_align_step_bounds(src, runs, s, r);
        let step = align_step(src, runs, s, r);
        lemma_index_maps_from_shape(src, runs, s + step.0, r + step.1);
        let rest = index_maps_from(src, runs, s + step.0, r + step.1);
        let m = index_maps_from(src, runs, s, r);
        assert(m.0 == repeat_index(r, step.0) + rest.0);
        assert(m.1 == repeat_index(s, step.1) + rest.1);
        assert forall|a: int, b: int| 0 <= a <= b < m.0.len() implies m.0[a] <= m.0[b] by {
            if b < step.0 {
            } else if a < step.0 {
                assert(m.0[b] == rest.0[b - step.0]);
            } else {
                assert(m.0[a] == rest.0[a - step.0]);
                assert(m.0[b] == rest.0[b - step.0]);
            }
        }
        assert forall|a: int, b: int| 0 <= a <= b < m.1.len() implies m.1[a] <= m.1[b] by {
            if b < step.1 {
            } else if a < step.1 {
                assert(m.1[b] == rest.1[b - step.1]);
            } else {
                assert(m.1[a] == rest.1[a - step.1]);
                assert(m.1[b] == rest.1[b - step.1]);
            }
        }
        assert forall|k: int| 0 <= k < m.0.len() implies r <= #[trigger] m.0[k] <= runs.len() by {
            if k >= step.0 {
                assert(m.0[k] == rest.0[k - step.0]);
            }
        }
        assert forall|k: int| 0 <= k < m.1.len() implies s <= #[trigger] m.1[k] <= src.len() by {
            if k >= step.1 {
                assert(m.1[k] == rest.1[k - step.1]);
            }
        }
    }
}

/// The first index at which `s` is strictly greater, by offset; used by the
/// exec search below.
fn find_match_offset(chars: &Vec<char>, base: usize, c: char) -> (found: Option<usize>)
    requires
        base < chars.len(),
    ensures
        match found {
            Some(i) => first_match_from(chars@, base as int, 1, chars.len() - base, c) == Some(
                i as int,
            ),
            None => first_match_from(chars@, base as int, 1, chars.len() - base, c) is None,
        },
{
    let hi = chars.len() - base;
    let mut i: usize = 1;
    while i < hi
        invariant
            1 <= i <= hi || (i == 1 && hi <= 1),
            hi == chars.len() - base,
            base < chars.len(),
            first_match_from(chars@, base as int, 1, hi as int, c) == first_match_from(
                chars@,
                base as int,
                i as int,
                hi as int,
                c,
            ),
        decreases hi - i,
    {
        if chars[base + i] == c {
            return Some(i);
        }
        i = i + 1;
    }
    None
}

/// Fills `map[from..from + count]` with `value`.
fn fill_entries(map: &mut Vec<usize>, from: usize, count: usize, value: usize)
    requires
        from + count <= old(map).len(),
    ensures
        final(map).len() == old(map).len(),
        final(map)@.subrange(0, from as int) == old(map)@.subrange(0, from as int),
        final(map)@.subrange(from as int, from + count) == repeat_index(value as int, count as int),
{
    let mut k: usize = 0;
    while k < count
        invariant
            from + count <= map.len(),
            map.len() == old(map).len(),
            k <= count,
            map@.subrange(0, from as int) == old(map)@.subrange(0, from as int),
            map@.subrange(from as int, from + k) == repeat_index(value as int, k as int),
        decreases count - k,
    {
        let ghost prev = map@;
        map.set(from + k, value);
        assert(map@.subrange(0, from as int) =~= prev.subrange(0, from as int));
        assert(map@.subrange(from as int, from + k + 1) =~= repeat_index(value as int, k + 1)) by {
            assert forall|j: int| 0 <= j < k + 1 implies #[trigger] map@.subrange(
                from as int,
                from + k + 1,
            )[j] == repeat_index(value as int, k + 1)[j] by {
                if j < k {
                    assert(prev.subrange(from as int, from + k)[j] == prev[from + j]);
                    assert(repeat_index(value as int, k as int)[j] == value);
                }
            }
        }
        k = k + 1;
    }
}

fn zeroes(n: usize) -> (v: Vec<usize>)
    ensures
        v.len() == n,
{
    let mut v: Vec<usize> = Vec::new();
    while v.len() < n
        invariant
            v.len() <= n,
        decreases n - v.len(),
    {
        v.push(0);
    }
    v
}

/// Builds the two-way character index maps between `source_text` (the visual
/// text, which may hold synthesized spaces) and `runs_text` (the raw text of
/// the runs). Returns `(source_to_runs, runs_to_source)`.
pub fn build_index_map(source_text: &str, runs_text: &str) -> (maps: (Vec<usize>, Vec<usize>))
    requires
        source_text@.len() < usize::MAX,
        runs_text@.len() < usize::MAX,
    ensures
        maps.0@ == index_maps(source_text@, runs_text@).0,
        maps.1@ == index_maps(source_text@, runs_text@).1,
{
    let source_chars = collect_chars(source_text);
    let runs_chars = collect_chars(runs_text);
    build_index_map_chars(&source_chars, &runs_chars)
}

/// `build_index_map` on character sequences.
pub fn build_index_map_chars(source_chars: &Vec<char>, runs_chars: &Vec<char>) -> (maps: (
    Vec<usize>,
    Vec<usize>,
))
    requires
        source_chars.len() < usize::MAX,
        runs_chars.len() < usize::MAX,
    ensures
        maps.0@ == index_maps(source_chars@, runs_chars@).0,
        maps.1@ == index_maps(source_chars@, runs_chars@).1,
{
    let ghost src = source_chars@;
    let ghost runs = runs_chars@;
    let ghost target = index_maps(src, runs);
    let source_len = source_chars.len();
    let runs_len = runs_chars.len();
    proof {
        lemma_index_maps_from_shape(src, runs, 0, 0);
    }
    let mut source_to_runs = zeroes(source_len + 1);
    let mut runs_to_source = zeroes(runs_len + 1);
    let mut s: usize = 0;
    let mut r: usize = 0;

    while s < source_len && r < runs_len
        invariant
            src == source_chars@,
            runs == runs_chars@,
            source_len == src.len(),
            runs_len == runs.len(),
            target == index_maps(src, runs),
            s <= source_len,
            r <= runs_len,
            source_to_runs.len() == source_len + 1,
            runs_to_source.len() == runs_len + 1,
            target.0 == source_to_runs@.subrange(0, s as int) + index_maps_from(
                src,
                runs,
                s as int,
                r as int,
            ).0,
            target.1 == runs_to_source@.subrange(0, r as int) + index_maps_from(
                src,
                runs,
                s as int,
                r as int,
            ).1,
            source_len < usize::MAX,
            runs_len < usize::MAX,
        decreases source_len - s + runs_len - r,
    {
        proof {
            lemma_align_step_bounds(src, runs, s as int, r as int);
        }
        let ghost step = align_step(src, runs, s as int, r as int);
        let ghost rest = index_maps_from(src, runs, s + step.0, r + step.1);
        let ghost prev_s2r = source_to_runs@;
        let ghost prev_r2s = runs_to_source@;
        let sc = source_chars[s];
        let rc = runs_chars[r];
        let mut ds: usize = 0;
        let mut dr: usize = 0;
        if sc == rc {
            ds = 1;
            dr = 1;
        } else if sc == ' ' {
            ds = 1;
        } else if rc == ' ' {
            dr = 1;
        } else {
            let found_in_source = find_match_offset(source_chars, s, rc);
            let found_in_runs = find_match_offset(runs_chars, r, sc);
            match (found_in_source, found_in_runs) {
                (Some(i), Some(j)) => {
                    if i <= j {
                        ds = i;
                    } else {
                        dr = j;
                    }
                },
                (Some(i), None) => {
                    ds = i;
                },
                (None, Some(j)) => {
                    dr = j;
                },
                (None, None) => {
                    ds = 1;
                    dr = 1;
                },
            }
        }
        assert(ds == step.0 && dr == step.1);
        fill_entries(&mut source_to_runs, s, ds, r);
        fill_entries(&mut runs_to_source, r, dr, s);
        proof {
            let m = index_maps_from(src, runs, s as int, r as int);
            assert(m.0 == repeat_index(r as int, ds as int) + rest.0);
            assert(m.1 == repeat_index(s as int, dr as int) + rest.1);
            assert(source_to_runs@.subrange(0, s + ds) =~= prev_s2r.subrange(0, s as int)
                + repeat_index(r as int, ds as int)) by {
                assert(source_to_runs@.subrange(0, s as int) == source_to_runs@.subrange(
                    0,
                    s + ds,
                ).subrange(0, s as int));
                assert(source_to_runs@.subrange(s as int, s + ds) == source_to_runs@.subrange(
                    0,
                    s + ds,
                ).subrange(s as int, s + ds));
            }
            assert(runs_to_source@.subrange(0, r + dr) =~= prev_r2s.subrange(0, r as int)
                + repeat_index(s as int, dr as int)) by {
                assert(runs_to_source@.subrange(0, r as int) == runs_to_source@.subrange(
                    0,
                    r + dr,
                ).subrange(0, r as int));
                assert(runs_to_source@.subrange(r as int, r + dr) == runs_to_source@.subrange(
                    0,
                    r + dr,
                ).subrange(r as int, r + dr));
            }
            vstd::seq_lib::lemma_concat_associative(
                prev_s2r.subrange(0, s as int),
                repeat_index(r as int, ds as int),
                rest.0,
            );
            vstd::seq_lib::lemma_concat_associative(
                prev_r2s.subrange(0, r as int),
                repeat_index(s as int, dr as int),
                rest.1,
            );
        }
        s = s + ds;
        r = r + dr;
    }

    let ghost tail = index_maps_from(src, runs, s as int, r as int);
    fill_entries(&mut source_to_runs, s, source_len - s, r);
    fill_entries(&mut runs_to_source, r, runs_len - r, s);
    source_to_runs.set(source_len, runs_len);
    runs_to_source.set(runs_len, source_len);
    proof {
        assert(tail.0 == repeat_index(r as int, source_len - s).push(runs_len as usize));
        assert(tail.1 == repeat_index(s as int, runs_len - r).push(source_len as usize));
        assert(source_to_runs@ =~= source_to_runs@.subrange(0, s as int) + tail.0) by {
            assert(source_to_runs@.subrange(0, s as int) =~= source_to_runs@.subrange(
                0,
                source_len as int,
            ).subrange(0, s as int));
            assert(source_to_runs@.subrange(s as int, source_len as int) =~= source_to_runs@.subrange(
                0,
                source_len as int,
            ).subrange(s as int, source_len as int));
        }
        assert(runs_to_source@ =~= runs_to_source@.subrange(0, r as int) + tail.1) by {
            assert(runs_to_source@.subrange(0, r as int) =~= runs_to_source@.subrange(
                0,
                runs_len as int,
            ).subrange(0, r as int));
            assert(runs_to_source@.subrange(r as int, runs_len as int) =~= runs_to_source@.subrange(
                0,
                runs_len as int,
            ).subrange(r as int, runs_len as int));
        }
    }
    (source_to_runs, runs_to_source)
}

} // verus!

verus! {

/// Shape of the index maps: one entry per character plus an end entry, every
/// entry within the other text, entries in non-decreasing order, and the end
/// entries mapping end to end.
pub proof fn index_maps_well_formed(src: Seq<char>, runs: Seq<char>)
    requires
        src.len() < usize::MAX,
        runs.len() < usize::MAX,
    ensures
        index_maps(src, runs).0.len() == src.len() + 1,
        index_maps(src, runs).1.len() == runs.len() + 1,
        forall|k: int|
            0 <= k < index_maps(src, runs).0.len() ==> #[trigger] index_maps(src, runs).0[k]
                <= runs.len(),
        forall|k: int|
            0 <= k < index_maps(src, runs).1.len() ==> #[trigger] index_maps(src, runs).1[k]
                <= src.len(),
        forall|a: int, b: int|
            0 <= a <= b < index_maps(src, runs).0.len() ==> index_maps(src, runs).0[a]
                <= index_maps(src, runs).0[b],
        forall|a: int, b: int|
            0 <= a <= b < index_maps(src, runs).1.len() ==> index_maps(src, runs).1[a]
                <= index_maps(src, runs).1[b],
        index_maps(src, runs).0[src.len() as int] == runs.len(),
        index_maps(src, runs).1[runs.len() as int] == src.len(),
{
    lemma_index_maps_from_shape(src, runs, 0, 0);
}

/// The identity positions `k, k + 1, ..., n` as a sequence.
pub open spec fn identity_from(k: int, n: int) -> Seq<usize> {
    Seq::new((n - k + 1) as nat, |i: int| (k + i) as usize)
}

proof fn lemma_identical_from(t: Seq<char>, k: int)
    requires
        0 <= k <= t.len(),
        t.len() < usize::MAX,
    ensures
        index_maps_from(t, t, k, k).0 == identity_from(k, t.len() as int),
        index_maps_from(t, t, k, k).1 == identity_from(k, t.len() as int),
    decreases t.len() - k,
{
    if k < t.len() {
        lemma_identical_from(t, k + 1);
        assert(align_step(t, t, k, k) == (1int, 1int));
        assert(index_maps_from(t, t, k, k).0 =~= identity_from(k, t.len() as int));
        assert(index_maps_from(t, t, k, k).1 =~= identity_from(k, t.len() as int));
    } else {
        assert(index_maps_from(t, t, k, k).0 =~= identity_from(k, t.len() as int));
        assert(index_maps_from(t, t, k, k).1 =~= identity_from(k, t.len() as int));
    }
}

/// Mapping a text against itself gives the identity in both directions.
pub proof fn index_maps_of_equal_texts(t: Seq<char>)
    requires
        t.len() < usize::MAX,
    ensures
        index_maps(t, t).0 == identity_from(0, t.len() as int),
        index_maps(t, t).1 == identity_from(0, t.len() as int),
{
    lemma_identical_from(t, 0);
}

/// `n` spaces.
pub open spec fn spaces(n: nat) -> Seq<char> {
    Seq::new(n, |i: int| ' ')
}

/// The runs text from index `r` on with `extra[t]` spaces synthesized before
/// each runs character `t` and `extra[runs.len()]` spaces at the end.
pub open spec fn spaced_text(runs: Seq<char>, extra: Seq<nat>, r: int) -> Seq<char>
    decreases runs.len() - r,
{
    if r >= runs.len() {
        spaces(extra[runs.len() as int])
    } else {
        spaces(extra[r]) + seq![runs[r]] + spaced_text(runs, extra, r + 1)
    }
}

/// Number of spaces synthesized before runs index `r`.
pub open spec fn spaces_before(extra: Seq<nat>, r: int) -> nat
    decreases r,
{
    if r <= 0 {
        0
    } else {
        spaces_before(extra, r - 1) + extra[r - 1]
    }
}

/// Source-to-runs entries of a spaced text from runs index `r` on: each runs
/// character, with the spaces synthesized before it, maps to that character.
pub open spec fn spaced_source_to_runs(extra: Seq<nat>, r: int) -> Seq<usize>
    decreases extra.len() - r,
{
    if r >= extra.len() {
        Seq::empty()
    } else {
        repeat_index(r, (extra[r] + 1) as int) + spaced_source_to_runs(extra, r + 1)
    }
}

/// Runs-to-source entries of a spaced text from runs index `r` on: runs
/// index `t` maps to its position in the spaced text.
pub open spec fn spaced_runs_to_source(extra: Seq<nat>, n: int, r: int) -> Seq<usize> {
    Seq::new((n - r + 1) as nat, |t: int| (r + t + spaces_before(extra, r + t + 1)) as usize)
}

proof fn lemma_spaced_text_len(runs: Seq<char>, extra: Seq<nat>, r: int)
    requires
        0 <= r <= runs.len(),
        extra.len() == runs.len() + 1,
    ensures
        spaced_text(runs, extra, r).len() == runs.len() - r + spaces_before(
            extra,
            runs.len() + 1 as int,
        ) - spaces_before(extra, r),
    decreases runs.len() - r,
{
    if r < runs.len() {
        lemma_spaced_text_len(runs, extra, r + 1);
    }
}

proof fn lemma_spaced_text_skip(runs: Seq<char>, extra: Seq<nat>, r: int)
    requires
        0 <= r <= runs.len(),
        extra.len() == runs.len() + 1,
    ensures
        spaced_text(runs, extra, 0).skip(r + spaces_before(extra, r)) == spaced_text(
            runs,
            extra,
            r,
        ),
    decreases r,
{
    let src = spaced_text(runs, extra, 0);
    if r == 0 {
        assert(src.skip(0) =~= src);
    } else {
        lemma_spaced_text_skip(runs, extra, r - 1);
        lemma_spaced_text_len(runs, extra, r - 1);
        lemma_spaced_text_len(runs, extra, 0);
        let before = spaced_text(runs, extra, r - 1);
        let e = extra[r - 1] as int;
        assert(before.skip(e + 1) =~= spaced_text(runs, extra, r));
        assert(src.skip(r + spaces_before(extra, r)) =~= src.skip(
            r - 1 + spaces_before(extra, r - 1),
        ).skip(e + 1));
    }
}

/// The walk through the spaces synthesized before runs character `r` and
/// over that character, given the maps from runs index `r + 1` on.
proof fn lemma_spaced_block_walk(runs: Seq<char>, extra: Seq<nat>, r: int, i: int)
    requires
        extra.len() == runs.len() + 1,
        forall|t: int| 0 <= t < runs.len() && extra[t] > 0 ==> runs[t] != ' ',
        0 <= r < runs.len(),
        0 <= i <= extra[r],
        index_maps_from(
            spaced_text(runs, extra, 0),
            runs,
            r + 1 + spaces_before(extra, r + 1),
            r + 1,
        ) == (spaced_source_to_runs(extra, r + 1), spaced_runs_to_source(
            extra,
            runs.len() as int,
            r + 1,
        )),
    ensures
        index_maps_from(spaced_text(runs, extra, 0), runs, r + spaces_before(extra, r) + i, r) == (
            repeat_index(r, extra[r] - i + 1) + spaced_source_to_runs(extra, r + 1),
            spaced_runs_to_source(extra, runs.len() as int, r),
        ),
    decreases extra[r] - i,
{
    let src = spaced_text(runs, extra, 0);
    let s = r + spaces_before(extra, r);
    let e = extra[r] as int;
    let n = runs.len() as int;
    lemma_spaced_text_skip(runs, extra, r);
    lemma_spaced_text_len(runs, extra, r);
    lemma_spaced_text_len(runs, extra, 0);
    let block = spaced_text(runs, extra, r);
    assert(src.skip(s)[i] == block[i]);
    assert(s + i < src.len());
    if i == e {
        assert(src[s + i] == runs[r]);
        assert(align_step(src, runs, s + i, r) == (1int, 1int));
        let m = index_maps_from(src, runs, s + i, r);
        assert(m.0 =~= repeat_index(r, 1) + spaced_source_to_runs(extra, r + 1));
        assert(m.1 =~= spaced_runs_to_source(extra, n, r));
    } else {
        assert(src[s + i] == ' ');
        assert(align_step(src, runs, s + i, r) == (1int, 0int));
        lemma_spaced_block_walk(runs, extra, r, i + 1);
        let m = index_maps_from(src, runs, s + i, r);
        assert(m.0 =~= repeat_index(r, extra[r] - i + 1) + spaced_source_to_runs(extra, r + 1));
        assert(m.1 =~= spaced_runs_to_source(extra, n, r));
    }
}

proof fn lemma_spaced_walk(runs: Seq<char>, extra: Seq<nat>, r: int)
    requires
        extra.len() == runs.len() + 1,
        forall|t: int| 0 <= t < runs.len() && extra[t] > 0 ==> runs[t] != ' ',
        0 <= r <= runs.len(),
    ensures
        index_maps_from(spaced_text(runs, extra, 0), runs, r + spaces_before(extra, r), r) == (
            spaced_source_to_runs(extra, r),
            spaced_runs_to_source(extra, runs.len() as int, r),
        ),
    decreases runs.len() - r,
{
    let src = spaced_text(runs, extra, 0);
    let n = runs.len() as int;
    if r < n {
        lemma_spaced_walk(runs, extra, r + 1);
        lemma_spaced_block_walk(runs, extra, r, 0);
    } else {
        lemma_spaced_text_len(runs, extra, 0);
        let s = r + spaces_before(extra, r);
        assert(spaces_before(extra, n + 1) == spaces_before(extra, n) + extra[n]);
        assert(src.len() - s == extra[n]);
        assert(spaced_source_to_runs(extra, n + 1) =~= Seq::<usize>::empty());
        let m = index_maps_from(src, runs, s, r);
        assert(m.0 =~= spaced_source_to_runs(extra, r));
        assert(m.1 =~= spaced_runs_to_source(extra, n, r));
    }
}

/// The maps between a text with synthesized spaces and the raw runs text:
/// when the source text is the runs text with `extra[t]` spaces synthesized
/// before each runs character `t` that is not a space (and `extra[len]` at
/// the end), every runs character, and each space synthesized before it, maps
/// to that character of the runs, and every runs character maps back to its
/// own position in the source text.
pub proof fn index_maps_of_synthesized_spaces(runs: Seq<char>, extra: Seq<nat>)
    requires
        extra.len() == runs.len() + 1,
        forall|t: int| 0 <= t < runs.len() && extra[t] > 0 ==> runs[t] != ' ',
    ensures
        index_maps(spaced_text(runs, extra, 0), runs).0 == spaced_source_to_runs(extra, 0),
        index_maps(spaced_text(runs, extra, 0), runs).1 == spaced_runs_to_source(
            extra,
            runs.len() as int,
            0,
        ),
{
    lemma_spaced_walk(runs, extra, 0);
}

/// `i` is the nearest offset after `base` at which `text` holds `c`: the
/// cursor at `base` realigns on `c` by moving `i` characters.
pub open spec fn nearest_realignment(text: Seq<char>, base: int, c: char, i: int) -> bool {
    &&& 1 <= i < text.len() - base
    &&& text[base + i] == c
    &&& forall|k: int| base < k < base + i ==> text[k] != c
}

/// No character after `base` in `text` is `c`.
pub open spec fn no_realignment(text: Seq<char>, base: int, c: char) -> bool {
    forall|k: int| base < k < text.len() ==> text[k] != c
}

/// From cursors `(s, r)` the walk moves the source cursor by `ds` and the
/// runs cursor by `dr`: the source indices stepped over map to `r`, the runs
/// indices stepped over map to `s`, and the rest of both maps is that of the
/// walk from the new cursors.
pub open spec fn walk_moves(src: Seq<char>, runs: Seq<char>, s: int, r: int, ds: int, dr: int) -> bool {
    let here = index_maps_from(src, runs, s, r);
    let next = index_maps_from(src, runs, s + ds, r + dr);
    &&& here.0 == Seq::new(ds as nat, |k: int| r as usize) + next.0
    &&& here.1 == Seq::new(dr as nat, |k: int| s as usize) + next.1
}

proof fn lemma_first_match_is(text: Seq<char>, base: int, lo: int, hi: int, c: char, i: int)
    requires
        lo <= i < hi,
        text[base + i] == c,
        forall|k: int| base + lo <= k < base + i ==> text[k] != c,
    ensures
        first_match_from(text, base, lo, hi, c) == Some(i),
    decreases i - lo,
{
    if lo < i {
        lemma_first_match_is(text, base, lo + 1, hi, c, i);
    }
}

proof fn lemma_first_match_none(text: Seq<char>, base: int, lo: int, hi: int, c: char)
    requires
        forall|k: int| base + lo <= k < base + hi ==> text[k] != c,
    ensures
        first_match_from(text, base, lo, hi, c) is None,
    decreases hi - lo,
{
    if lo < hi {
        lemma_first_match_none(text, base, lo + 1, hi, c);
    }
}

proof fn lemma_walk_moves(src: Seq<char>, runs: Seq<char>, s: int, r: int, ds: int, dr: int)
    requires
        0 <= s < src.len(),
        0 <= r < runs.len(),
        align_step(src, runs, s, r) == (ds, dr),
    ensures
        walk_moves(src, runs, s, r, ds, dr),
{
    lemma_align_step_bounds(src, runs, s, r);
    let here = index_maps_from(src, runs, s, r);
    let next = index_maps_from(src, runs, s + ds, r + dr);
    assert(here.0 =~= Seq::new(ds as nat, |k: int| r as usize) + next.0);
    assert(here.1 =~= Seq::new(dr as nat, |k: int| s as usize) + next.1);
}

/// Where the walk ends (one text used up), the rest of the source maps to
/// the runs cursor and the rest of the runs to the source cursor, and each
/// map ends with the length of the other text.
pub proof fn index_maps_at_the_end(src: Seq<char>, runs: Seq<char>, s: int, r: int)
    requires
        0 <= s <= src.len(),
        0 <= r <= runs.len(),
        s == src.len() || r == runs.len(),
    ensures
        index_maps_from(src, runs, s, r).0 == Seq::new((src.len() - s) as nat, |k: int| r as usize).push(
            runs.len() as usize,
        ),
        index_maps_from(src, runs, s, r).1 == Seq::new((runs.len() - r) as nat, |k: int| s as usize).push(
            src.len() as usize,
        ),
{
    assert(index_maps_from(src, runs, s, r).0 =~= Seq::new(
        (src.len() - s) as nat,
        |k: int| r as usize,
    ).push(runs.len() as usize));
    assert(index_maps_from(src, runs, s, r).1 =~= Seq::new(
        (runs.len() - r) as nat,
        |k: int| s as usize,
    ).push(src.len() as usize));
}

/// Equal characters under both cursors are mapped to each other and both
/// cursors move on; a source space facing another character is stepped over
/// in the source alone (it maps to the runs character it precedes), and a
/// runs space facing a character that is not a space is stepped over in the
/// runs alone.
pub proof fn index_maps_step_on_equal_chars_and_spaces(src: Seq<char>, runs: Seq<char>, s: int, r: int)
    requires
        0 <= s < src.len(),
        0 <= r < runs.len(),
    ensures
        src[s] == runs[r] ==> walk_moves(src, runs, s, r, 1, 1),
        src[s] != runs[r] && src[s] == ' ' ==> walk_moves(src, runs, s, r, 1, 0),
        src[s] != runs[r] && src[s] != ' ' && runs[r] == ' ' ==> walk_moves(src, runs, s, r, 0, 1),
{
    lemma_walk_moves(src, runs, s, r, align_step(src, runs, s, r).0, align_step(src, runs, s, r).1);
}

/// On a mismatch of two characters that are not spaces, the walk realigns
/// on the nearer side: when the source character reappears `j` runs
/// characters on and the runs character reappears `i` source characters on,
/// the source cursor jumps `i` when `i <= j`, and otherwise the runs cursor
/// jumps `j`; the characters stepped over map to the other cursor.
pub proof fn index_maps_realign_on_the_nearer_side(
    src: Seq<char>,
    runs: Seq<char>,
    s: int,
    r: int,
    i: int,
    j: int,
)
    requires
        0 <= s < src.len(),
        0 <= r < runs.len(),
        src[s] != runs[r],
        src[s] != ' ',
        runs[r] != ' ',
        nearest_realignment(src, s, runs[r], i),
        nearest_realignment(runs, r, src[s], j),
    ensures
        i <= j ==> walk_moves(src, runs, s, r, i, 0),
        i > j ==> walk_moves(src, runs, s, r, 0, j),
{
    lemma_first_match_is(src, s, 1, src.len() - s, runs[r], i);
    lemma_first_match_is(runs, r, 1, runs.len() - r, src[s], j);
    lemma_walk_moves(src, runs, s, r, align_step(src, runs, s, r).0, align_step(src, runs, s, r).1);
}

/// On a mismatch of two characters that are not spaces where only one side
/// can realign, that side jumps to its realignment point; where neither can,
/// both cursors move on by one.
pub proof fn index_maps_realign_on_the_only_side(
    src: Seq<char>,
    runs: Seq<char>,
    s: int,
    r: int,
    i: int,
    j: int,
)
    requires
        0 <= s < src.len(),
        0 <= r < runs.len(),
        src[s] != runs[r],
        src[s] != ' ',
        runs[r] != ' ',
    ensures
        nearest_realignment(src, s, runs[r], i) && no_realignment(runs, r, src[s]) ==> walk_moves(
            src,
            runs,
            s,
            r,
            i,
            0,
        ),
        no_realignment(src, s, runs[r]) && nearest_realignment(runs, r, src[s], j) ==> walk_moves(
            src,
            runs,
            s,
            r,
            0,
            j,
        ),
        no_realignment(src, s, runs[r]) && no_realignment(runs, r, src[s]) ==> walk_moves(
            src,
            runs,
            s,
            r,
            1,
            1,
        ),
{
    if nearest_realignment(src, s, runs[r], i) {
        lemma_first_match_is(src, s, 1, src.len() - s, runs[r], i);
    }
    if no_realignment(src, s, runs[r]) {
        lemma_first_match_none(src, s, 1, src.len() - s, runs[r]);
    }
    if nearest_realignment(runs, r, src[s], j) {
        lemma_first_match_is(runs, r, 1, runs.len() - r, src[s], j);
    }
    if no_realignment(runs, r, src[s]) {
        lemma_first_match_none(runs, r, 1, runs.len() - r, src[s]);
    }
    lemma_walk_moves(src, runs, s, r, align_step(src, runs, s, r).0, align_step(src, runs, s, r).1);
}

/// Common prefix and suffix lengths of a source text and a draft text, in
/// characters.
pub struct TextDiff {
    pub prefix_len: usize,
    pub suffix_len: usize,
    pub source_len: usize,
    pub draft_len: usize,
}

/// `prefix` is the length of the longest common prefix of `a` and `b`.
pub open spec fn is_common_prefix_len(a: Seq<char>, b: Seq<char>, prefix: int) -> bool {
    &&& 0 <= prefix <= a.len()
    &&& prefix <= b.len()
    &&& forall|i: int| 0 <= i < prefix ==> a[i] == b[i]
    &&& (prefix == a.len() || prefix == b.len() || a[prefix] != b[prefix])
}

/// The `i`-th character counted from the end (0 is the last one).
pub open spec fn from_end(a: Seq<char>, i: int) -> char {
    a[a.len() - 1 - i]
}

/// `suffix` is the length of the longest common suffix of `a` and `b` that
/// does not reach into their first `prefix` characters.
pub open spec fn is_common_suffix_len(a: Seq<char>, b: Seq<char>, prefix: int, suffix: int) -> bool {
    &&& 0 <= suffix
    &&& suffix <= a.len() - prefix
    &&& suffix <= b.len() - prefix
    &&& forall|i: int| 0 <= i < suffix ==> #[trigger] from_end(a, i) == from_end(b, i)
    &&& (suffix == a.len() - prefix || suffix == b.len() - prefix || a[a.len() - 1 - suffix]
        != b[b.len() - 1 - suffix])
}

impl TextDiff {
    /// What the diff states of `source` and `draft`.
    pub open spec fn describes(&self, source: Seq<char>, draft: Seq<char>) -> bool {
        &&& self.source_len == source.len()
        &&& self.draft_len == draft.len()
        &&& is_common_prefix_len(source, draft, self.prefix_len as int)
        &&& is_common_suffix_len(source, draft, self.prefix_len as int, self.suffix_len as int)
    }

    pub open spec fn spec_inserted_end(&self) -> int {
        if self.draft_len >= self.suffix_len {
            self.draft_len - self.suffix_len
        } else {
            0
        }
    }

    /// Start of the edited span of the draft (character index).
    pub fn inserted_start(&self) -> (start: usize)
        ensures
            start == self.prefix_len,
    {
        self.prefix_len
    }

    /// End of the edited span of the draft (character index).
    pub fn inserted_end(&self) -> (end: usize)
        ensures
            end == self.spec_inserted_end(),
    {
        self.draft_len.saturating_sub(self.suffix_len)
    }

    /// Whether the draft has a non-empty edited span.
    pub fn has_inserted(&self) -> (b: bool)
        ensures
            b == (self.prefix_len < self.spec_inserted_end()),
    {
        self.inserted_start() < self.inserted_end()
    }
}

/// Common prefix and suffix of the source text and the draft text.
pub fn compute_text_diff(source_text: &str, draft_text: &str) -> (diff: TextDiff)
    ensures
        diff.describes(source_text@, draft_text@),
{
    let source_chars = collect_chars(source_text);
    let draft_chars = collect_chars(draft_text);
    let sl = source_chars.len();
    let dl = draft_chars.len();
    let mut prefix_len: usize = 0;
    while prefix_len < sl && prefix_len < dl && source_chars[prefix_len] == draft_chars[prefix_len]
        invariant
            sl == source_chars.len(),
            dl == draft_chars.len(),
            prefix_len <= sl,
            prefix_len <= dl,
            forall|i: int| 0 <= i < prefix_len ==> source_chars@[i] == draft_chars@[i],
        decreases sl - prefix_len,
    {
        prefix_len = prefix_len + 1;
    }
    let mut suffix_len: usize = 0;
    while suffix_len < sl - prefix_len && suffix_len < dl - prefix_len && source_chars[sl - 1
        - suffix_len] == draft_chars[dl - 1 - suffix_len]
        invariant
            sl == source_chars.len(),
            dl == draft_chars.len(),
            prefix_len <= sl,
            prefix_len <= dl,
            suffix_len <= sl - prefix_len,
            suffix_len <= dl - prefix_len,
            forall|i: int|
                0 <= i < suffix_len ==> #[trigger] from_end(source_chars@, i) == from_end(
                    draft_chars@,
                    i,
                ),
        decreases sl - suffix_len,
    {
        suffix_len = suffix_len + 1;
    }
    TextDiff { prefix_len, suffix_len, source_len: sl, draft_len: dl }
}

/// A diff explains the draft: the draft is the common prefix of the source,
/// then the edited span, then the common suffix of the source.
pub proof fn text_diff_reconstructs_draft(diff: TextDiff, source: Seq<char>, draft: Seq<char>)
    requires
        diff.describes(source, draft),
    ensures
        draft =~= source.take(diff.prefix_len as int) + draft.subrange(
            diff.prefix_len as int,
            diff.spec_inserted_end(),
        ) + source.skip(source.len() - diff.suffix_len),
{
    let p = diff.prefix_len as int;
    let e = diff.spec_inserted_end();
    let rhs = source.take(p) + draft.subrange(p, e) + source.skip(source.len() - diff.suffix_len);
    assert forall|i: int| 0 <= i < draft.len() implies #[trigger] rhs[i] == draft[i] by {
        if i < p {
        } else if i < e {
        } else {
            let j = draft.len() - 1 - i;
            assert(from_end(source, j) == from_end(draft, j));
        }
    }
}

/// The draft has no edited span exactly when it is the source with one
/// contiguous block (possibly empty) taken out.
pub proof fn no_edited_span_iff_block_removed(diff: TextDiff, source: Seq<char>, draft: Seq<char>)
    requires
        diff.describes(source, draft),
    ensures
        !(diff.prefix_len < diff.spec_inserted_end()) <==> exists|i: int, j: int|
            #![trigger source.take(i), source.skip(j)]
            0 <= i <= j <= source.len() && draft == source.take(i) + source.skip(j),
{
    let p = diff.prefix_len as int;
    let sfx = diff.suffix_len as int;
    if !(diff.prefix_len < diff.spec_inserted_end()) {
        text_diff_reconstructs_draft(diff, source, draft);
        let j = source.len() - sfx;
        assert(draft.subrange(p, diff.spec_inserted_end()) =~= Seq::<char>::empty());
        assert(draft =~= source.take(p) + source.skip(j));
    }
    if exists|i: int, j: int|
        #![trigger source.take(i), source.skip(j)]
        0 <= i <= j <= source.len() && draft == source.take(i) + source.skip(j) {
        let (i, j) = choose|i: int, j: int|
            #![trigger source.take(i), source.skip(j)]
            0 <= i <= j <= source.len() && draft == source.take(i) + source.skip(j);
        assert(draft.len() == i + source.len() - j);
        if p < i {
            assert(draft[p] == source[p]);
        }
        assert(p >= i);
        assert forall|k: int| 0 <= k < draft.len() - i implies #[trigger] from_end(draft, k)
            == from_end(source, k) by {
            assert(draft[draft.len() - 1 - k] == source[j + (draft.len() - 1 - k - i)]);
        }
        if sfx < draft.len() - p {
            assert(from_end(draft, sfx) == from_end(source, sfx));
        }
    }
}

/// Identical texts give an empty edited span.
pub proof fn text_diff_of_identical_texts(diff: TextDiff, text: Seq<char>)
    requires
        diff.describes(text, text),
    ensures
        diff.prefix_len == text.len(),
        diff.suffix_len == 0,
        !(diff.prefix_len < diff.spec_inserted_end()),
{
}

} // verus!

verus! {

/// A caret stop index in the text of the runs, moved to the draft text by the
/// runs-to-draft map `inverse`; an index past the map stays as it is.
pub open spec fn remap_index(inverse: Seq<usize>, index: usize) -> usize {
    if (index as int) < inverse.len() {
        inverse[index as int]
    } else {
        index
    }
}

/// The caret stop indices of every line after the move to the draft text.
pub open spec fn remapped_lines(
    lines: Seq<Seq<usize>>,
    draft_runs_text: Seq<char>,
    draft_text: Seq<char>,
) -> Seq<Seq<usize>> {
    lines.map_values(
        |line: Seq<usize>|
            line.map_values(
                |index: usize| remap_index(index_maps(draft_text, draft_runs_text).1, index),
            ),
    )
}

/// The view of caret lines: the stop indices of each line.
pub open spec fn caret_lines_view(lines: Seq<Vec<usize>>) -> Seq<Seq<usize>> {
    lines.map_values(|line: Vec<usize>| line@)
}

/// Moves the caret stop indices of `caret_lines` (each line a list of stop
/// indices counted in the text of the runs) into the character space of the
/// draft text. Nothing moves where both texts are equal.
pub fn remap_caret_indices_to_draft_space(
    caret_lines: &mut Vec<Vec<usize>>,
    draft_runs_text: &str,
    draft_text: &str,
)
    requires
        draft_runs_text@.len() < usize::MAX,
        draft_text@.len() < usize::MAX,
    ensures
        caret_lines_view(final(caret_lines)@) == remapped_lines(
            caret_lines_view(old(caret_lines)@),
            draft_runs_text@,
            draft_text@,
        ),
        draft_text@ == draft_runs_text@ ==> final(caret_lines)@ == old(caret_lines)@,
{
    if crate::chars::str_eq(draft_text, draft_runs_text) {
        proof {
            remap_of_equal_texts_keeps_stops(caret_lines_view(caret_lines@), draft_text@);
        }
        return;
    }
    let maps = build_index_map(draft_text, draft_runs_text);
    let inverse = maps.1;
    let ghost lines = caret_lines_view(caret_lines@);
    let ghost target = remapped_lines(lines, draft_runs_text@, draft_text@);
    let mut out: Vec<Vec<usize>> = Vec::new();
    let mut l: usize = 0;
    while l < caret_lines.len()
        invariant
            inverse@ == index_maps(draft_text@, draft_runs_text@).1,
            lines == caret_lines_view(caret_lines@),
            target == remapped_lines(lines, draft_runs_text@, draft_text@),
            l <= caret_lines.len(),
            out.len() == l,
            forall|i: int| 0 <= i < l ==> (#[trigger] out@[i])@ == target[i],
        decreases caret_lines.len() - l,
    {
        let line = &caret_lines[l];
        let mut moved: Vec<usize> = Vec::new();
        let mut k: usize = 0;
        while k < line.len()
            invariant
                inverse@ == index_maps(draft_text@, draft_runs_text@).1,
                line@ == lines[l as int],
                target == remapped_lines(lines, draft_runs_text@, draft_text@),
                l < lines.len(),
                k <= line.len(),
                moved@ == line@.take(k as int).map_values(
                    |index: usize| remap_index(index_maps(draft_text@, draft_runs_text@).1, index),
                ),
            decreases line.len() - k,
        {
            let index = line[k];
            let next = if index < inverse.len() {
                inverse[index]
            } else {
                index
            };
            moved.push(next);
            assert(line@.take(k + 1).map_values(
                |index: usize| remap_index(index_maps(draft_text@, draft_runs_text@).1, index),
            ) =~= line@.take(k as int).map_values(
                |index: usize| remap_index(index_maps(draft_text@, draft_runs_text@).1, index),
            ).push(next));
            k = k + 1;
        }
        assert(line@.take(line.len() as int) =~= line@);
        assert(moved@ =~= target[l as int]);
        out.push(moved);
        l = l + 1;
    }
    proof {
        assert(caret_lines_view(out@) =~= target);
    }
    *caret_lines = out;
}

/// Caret stops of texts that already agree are left where they are.
pub proof fn remap_of_equal_texts_keeps_stops(lines: Seq<Seq<usize>>, text: Seq<char>)
    requires
        text.len() < usize::MAX,
    ensures
        remapped_lines(lines, text, text) == lines,
{
    index_maps_of_equal_texts(text);
    assert forall|l: int| 0 <= l < lines.len() implies (#[trigger] remapped_lines(
        lines,
        text,
        text,
    )[l]) == lines[l] by {
        assert(remapped_lines(lines, text, text)[l] =~= lines[l]);
    }
    assert(remapped_lines(lines, text, text) =~= lines);
}

} // verus!

verus! {

/// The text of the body runs, run after run.
pub fn body_runs_text(run_texts: &Vec<String>) -> (text: String)
    ensures
        text@ == crate::semantic_block::concat_texts(run_texts@),
{
    let mut text = String::new();
    let mut i: usize = 0;
    while i < run_texts.len()
        invariant
            i <= run_texts.len(),
            text@ == crate::semantic_block::concat_texts(run_texts@.take(i as int)),
        decreases run_texts.len() - i,
    {
        assert(run_texts@.take(i + 1).drop_last() =~= run_texts@.take(i as int));
        crate::text_format::push_str(&mut text, run_texts[i].as_str());
        i = i + 1;
    }
    assert(run_texts@.take(run_texts.len() as int) =~= run_texts@);
    text
}

/// Whether the body runs spell the source body text.
pub fn body_runs_match_source_text(run_texts: &Vec<String>, source_body_text: &str) -> (b: bool)
    ensures
        b == (crate::semantic_block::concat_texts(run_texts@) == source_body_text@),
{
    let text = body_runs_text(run_texts);
    crate::chars::str_eq(text.as_str(), source_body_text)
}

} // verus!
