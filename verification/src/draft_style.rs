//! Planning the styled runs of a draft paragraph: the unchanged prefix and
//! suffix of the source are cut from the raw runs, and only the inserted
//! middle of the draft gets a template style. Indices of the visual source
//! text are carried into the character space of the raw runs first, since
//! the source text may hold synthesized spaces that the runs lack.

use vstd::prelude::*;
use crate::chars::{chars_to_text, collect_chars};
use crate::semantic_block::concat_texts;
use crate::text_diff::{
    body_runs_match_source_text, body_runs_text, build_index_map, compute_text_diff, index_maps,
    TextDiff,
};

verus! {

/// Where the runs are cut and what is inserted between the pieces.
pub struct DraftStylePlan {
    /// Common prefix and suffix of the source text and the draft text.
    pub diff: TextDiff,
    /// Number of characters of the raw runs.
    pub runs_total_chars: usize,
    /// The prefix is cut from the runs as `[0, prefix_runs_end)`.
    pub prefix_runs_end: usize,
    /// The suffix is cut from the runs as `[suffix_runs_start, runs_total_chars)`.
    pub suffix_runs_start: usize,
    /// Runs index of the character whose style the inserted text takes, when
    /// the draft has an inserted span.
    pub anchor_runs_index: Option<usize>,
    /// The inserted span of the draft (empty when there is none).
    pub inserted_text: String,
}

/// A character index of the source text carried to the runs: the identity
/// (capped at the end of the runs) when the runs spell the source text,
/// otherwise through the source-to-runs index map, with indices past the map
/// sent to the end of the runs.
pub open spec fn source_to_runs_index(
    source: Seq<char>,
    runs: Seq<char>,
    runs_match_source: bool,
    index: int,
) -> int {
    if runs_match_source {
        if index <= runs.len() {
            index
        } else {
            runs.len() as int
        }
    } else if 0 <= index < index_maps(source, runs).0.len() {
        index_maps(source, runs).0[index] as int
    } else {
        runs.len() as int
    }
}

/// `n - 1`, or 0 for 0.
pub open spec fn minus_one_or_zero(n: int) -> int {
    if n >= 1 {
        n - 1
    } else {
        0
    }
}

fn map_source_index(
    mapping: &Vec<usize>,
    runs_match_source: bool,
    runs_total_chars: usize,
    index: usize,
    Ghost(source): Ghost<Seq<char>>,
    Ghost(runs): Ghost<Seq<char>>,
) -> (r: usize)
    requires
        runs_total_chars == runs.len(),
        !runs_match_source ==> mapping@ == index_maps(source, runs).0,
    ensures
        r == source_to_runs_index(source, runs, runs_match_source, index as int),
{
    if runs_match_source {
        if index <= runs_total_chars {
            index
        } else {
            runs_total_chars
        }
    } else if index < mapping.len() {
        mapping[index]
    } else {
        runs_total_chars
    }
}

/// Plans the styled runs of `draft_text` over the body runs whose texts are
/// `run_texts`, the source body text being `source_text`.
pub fn plan_draft_styles(source_text: &str, draft_text: &str, run_texts: &Vec<String>) -> (plan:
    DraftStylePlan)
    requires
        source_text@.len() < usize::MAX,
        concat_texts(run_texts@).len() < usize::MAX,
    ensures
        plan.diff.describes(source_text@, draft_text@),
        plan.runs_total_chars == concat_texts(run_texts@).len(),
        ({
            let runs = concat_texts(run_texts@);
            let matched = runs == source_text@;
            let d = plan.diff;
            let has_inserted = d.prefix_len < d.spec_inserted_end();
            &&& plan.prefix_runs_end == source_to_runs_index(
                source_text@,
                runs,
                matched,
                d.prefix_len as int,
            )
            &&& plan.suffix_runs_start == source_to_runs_index(
                source_text@,
                runs,
                matched,
                d.source_len - d.suffix_len,
            )
            &&& plan.anchor_runs_index == if has_inserted {
                Some(
                    source_to_runs_index(
                        source_text@,
                        runs,
                        matched,
                        if d.prefix_len <= d.source_len {
                            minus_one_or_zero(d.prefix_len as int)
                        } else {
                            minus_one_or_zero(d.source_len as int)
                        },
                    ) as usize,
                )
            } else {
                None
            }
            &&& plan.inserted_text@ == if has_inserted {
                draft_text@.subrange(d.prefix_len as int, d.spec_inserted_end())
            } else {
                Seq::<char>::empty()
            }
        }),
{
    let diff = compute_text_diff(source_text, draft_text);
    let runs_text = body_runs_text(run_texts);
    let runs_match_source = body_runs_match_source_text(run_texts, source_text);
    let runs_chars = collect_chars(runs_text.as_str());
    let runs_total_chars = runs_chars.len();
    let ghost source = source_text@;
    let ghost runs = runs_text@;
    let mapping: Vec<usize> = if runs_match_source {
        Vec::new()
    } else {
        build_index_map(source_text, runs_text.as_str()).0
    };
    let prefix_runs_end = map_source_index(
        &mapping,
        runs_match_source,
        runs_total_chars,
        diff.prefix_len,
        Ghost(source),
        Ghost(runs),
    );
    let suffix_runs_start = map_source_index(
        &mapping,
        runs_match_source,
        runs_total_chars,
        diff.source_len - diff.suffix_len,
        Ghost(source),
        Ghost(runs),
    );
    let mut anchor_runs_index: Option<usize> = None;
    let mut inserted_chars: Vec<char> = Vec::new();
    if diff.has_inserted() {
        let before_prefix_end = diff.prefix_len.saturating_sub(1);
        let last_source_index = diff.source_len.saturating_sub(1);
        let anchor_source_index = if before_prefix_end <= last_source_index {
            before_prefix_end
        } else {
            last_source_index
        };
        anchor_runs_index = Some(
            map_source_index(
                &mapping,
                runs_match_source,
                runs_total_chars,
                anchor_source_index,
                Ghost(source),
                Ghost(runs),
            ),
        );
        let draft_chars = collect_chars(draft_text);
        let start = diff.inserted_start();
        let end = diff.inserted_end();
        let mut i: usize = start;
        while i < end
            invariant
                draft_chars@ == draft_text@,
                start <= i <= end,
                end <= draft_chars@.len(),
                inserted_chars@ == draft_chars@.subrange(start as int, i as int),
            decreases end - i,
        {
            inserted_chars.push(draft_chars[i]);
            assert(draft_chars@.subrange(start as int, i as int).push(draft_chars@[i as int])
                =~= draft_chars@.subrange(start as int, i + 1));
            i = i + 1;
        }
    }
    let inserted_text = chars_to_text(inserted_chars);
    DraftStylePlan {
        diff,
        runs_total_chars,
        prefix_runs_end,
        suffix_runs_start,
        anchor_runs_index,
        inserted_text,
    }
}

} // verus!
