//! Validation of semantic blocks: the body text must be the text of the body
//! runs, a list item's body must not start with its marker text, and the PDF
//! objects of the body and of the markers must be disjoint.

use vstd::prelude::*;
use crate::chars::{collect_chars, string_push};
use crate::editor_state::ListMarkerKind;
use crate::page_models::VisualMarkerKind;
use crate::text_format::{push_decimal, push_str, to_owned_string, decimal};

verus! {

/// Kind of graphic object that draws a marker.
#[derive(Clone, Copy, PartialEq, Eq, Structural, Debug)]
pub enum GraphicType {
    Image,
    Path,
}

pub struct SemanticBlockId(pub String);

/// Content of a list marker: text, or a reference to a graphic object.
pub enum SemanticMarkerContent {
    Text { text: String },
    Graphic { object_index: usize, object_type: GraphicType, object_id: String },
}

impl SemanticMarkerContent {
    pub fn text_content(&self) -> (t: Option<&str>)
        ensures
            match self {
                SemanticMarkerContent::Text { text } => t matches Some(s) && s@ == text@,
                SemanticMarkerContent::Graphic { .. } => t is None,
            },
    {
        match self {
            SemanticMarkerContent::Text { text } => Some(text.as_str()),
            SemanticMarkerContent::Graphic { .. } => None,
        }
    }
}

/// The PDF object indices a block was built from.
pub struct SourceProvenanceLite {
    pub body_object_indices: Vec<usize>,
    pub marker_object_indices: Vec<usize>,
    pub graphic_marker_object_indices: Vec<usize>,
}

pub struct SemanticModelValidation {
    pub valid: bool,
    pub errors: Vec<String>,
}

/// `s` is strictly increasing.
pub open spec fn strictly_increasing(s: Seq<usize>) -> bool {
    forall|i: int, j: int| 0 <= i < j < s.len() ==> s[i] < s[j]
}

/// Inserts `x` into a strictly increasing vector, keeping it strictly
/// increasing and without duplicates.
pub fn insert_sorted_unique(v: &mut Vec<usize>, x: usize)
    requires
        strictly_increasing(old(v)@),
    ensures
        strictly_increasing(final(v)@),
        final(v)@.to_set() == old(v)@.to_set().insert(x),
{
    let mut i: usize = 0;
    while i < v.len() && v[i] < x
        invariant
            i <= v.len(),
            forall|k: int| 0 <= k < i ==> v@[k] < x,
        decreases v.len() - i,
    {
        i = i + 1;
    }
    if i < v.len() && v[i] == x {
        assert(v@.to_set().insert(x) =~= v@.to_set());
        return;
    }
    let ghost before = v@;
    v.insert(i, x);
    assert(strictly_increasing(v@)) by {
        assert forall|a: int, b: int| 0 <= a < b < v@.len() implies v@[a] < v@[b] by {
            if b < i {
            } else if b == i {
            } else if a < i {
                assert(v@[b] == before[b - 1]);
                assert(before[i as int] > x);
                if b - 1 > i {
                    assert(before[i as int] < before[b - 1]);
                }
            } else if a == i {
                assert(v@[b] == before[b - 1]);
                if b - 1 > i {
                    assert(before[i as int] < before[b - 1]);
                }
            } else {
                assert(v@[a] == before[a - 1]);
                assert(v@[b] == before[b - 1]);
            }
        }
    }
    assert(v@.to_set() =~= before.to_set().insert(x)) by {
        assert forall|y: usize| v@.to_set().contains(y) implies before.to_set().insert(x).contains(
            y,
        ) by {
            let k = choose|k: int| 0 <= k < v@.len() && v@[k] == y;
            if k < i {
                assert(before[k] == y);
            } else if k > i {
                assert(before[k - 1] == y);
            }
        }
        assert forall|y: usize| before.to_set().insert(x).contains(y) implies v@.to_set().contains(
            y,
        ) by {
            if y == x {
                assert(v@[i as int] == x);
            } else {
                let k = choose|k: int| 0 <= k < before.len() && before[k] == y;
                if k < i {
                    assert(v@[k] == y);
                } else {
                    assert(v@[k + 1] == y);
                }
            }
        }
    }
}

/// Object indices found both in the body and in a marker.
pub open spec fn overlap_set(body: Seq<usize>, marker: Seq<usize>, graphic: Seq<usize>) -> Set<
    usize,
> {
    body.to_set().intersect(marker.to_set().union(graphic.to_set()))
}

/// `[a, b, c]`: the numbers in decimal, separated by `, `, in brackets.
pub open spec fn list_text(s: Seq<usize>) -> Seq<char>
    decreases s.len(),
{
    if s.len() == 0 {
        seq!['[', ']']
    } else {
        list_body(s).push(']')
    }
}

/// `[a, b, c` (without the closing bracket) for a non-empty `s`.
pub open spec fn list_body(s: Seq<usize>) -> Seq<char>
    decreases s.len(),
{
    if s.len() == 0 {
        seq!['[']
    } else if s.len() == 1 {
        seq!['['] + decimal(s[0] as nat)
    } else {
        list_body(s.drop_last()) + seq![',', ' '] + decimal(s.last() as nat)
    }
}

pub open spec fn overlap_prefix() -> Seq<char> {
    seq![
        'b',
        'o',
        'd',
        'y',
        ' ',
        'a',
        'n',
        'd',
        ' ',
        'm',
        'a',
        'r',
        'k',
        'e',
        'r',
        ' ',
        'o',
        'b',
        'j',
        'e',
        'c',
        't',
        ' ',
        's',
        'e',
        't',
        's',
        ' ',
        'o',
        'v',
        'e',
        'r',
        'l',
        'a',
        'p',
        ':',
        ' ',
    ]
}

/// Renders a list of indices as `[a, b, c]`.
pub fn format_index_list(s: &mut String, items: &Vec<usize>)
    ensures
        final(s)@ == old(s)@ + list_text(items@),
{
    string_push(s, '[');
    let mut i: usize = 0;
    while i < items.len()
        invariant
            i <= items.len(),
            i == 0 ==> s@ == old(s)@ + seq!['['],
            i > 0 ==> s@ == old(s)@ + list_body(items@.take(i as int)),
        decreases items.len() - i,
    {
        if i > 0 {
            string_push(s, ',');
            string_push(s, ' ');
        }
        push_decimal(s, items[i] as u64);
        assert(items@.take(i + 1).drop_last() =~= items@.take(i as int));
        i = i + 1;
    }
    string_push(s, ']');
    if items.len() == 0 {
        assert(s@ =~= old(s)@ + list_text(items@));
    } else {
        assert(items@.take(items.len() as int) =~= items@);
    }
}

/// `Ok` when no object index is both in the body and in a marker; otherwise
/// an error naming the shared indices in increasing order.
pub fn validate_marker_body_object_sets_do_not_overlap(
    body_object_indices: &Vec<usize>,
    marker_object_indices: &Vec<usize>,
    graphic_marker_object_indices: &Vec<usize>,
) -> (r: Result<(), String>)
    ensures
        r is Ok <==> overlap_set(
            body_object_indices@,
            marker_object_indices@,
            graphic_marker_object_indices@,
        ).is_empty(),
        r matches Err(msg) ==> exists|overlaps: Seq<usize>|
            {
                &&& strictly_increasing(overlaps)
                &&& overlaps.to_set() == overlap_set(
                    body_object_indices@,
                    marker_object_indices@,
                    graphic_marker_object_indices@,
                )
                &&& msg@ == overlap_prefix() + list_text(overlaps)
            },
{
    let ghost target = overlap_set(
        body_object_indices@,
        marker_object_indices@,
        graphic_marker_object_indices@,
    );
    let mut overlaps: Vec<usize> = Vec::new();
    let mut i: usize = 0;
    while i < body_object_indices.len()
        invariant
            i <= body_object_indices.len(),
            strictly_increasing(overlaps@),
            overlaps@.to_set() == target.filter(
                |x: usize| exists|k: int| 0 <= k < i && body_object_indices@[k] == x,
            ),
            target == overlap_set(
                body_object_indices@,
                marker_object_indices@,
                graphic_marker_object_indices@,
            ),
        decreases body_object_indices.len() - i,
    {
        let x = body_object_indices[i];
        let in_marker = vec_contains(marker_object_indices, x) || vec_contains(
            graphic_marker_object_indices,
            x,
        );
        let ghost before = overlaps@.to_set();
        if in_marker {
            insert_sorted_unique(&mut overlaps, x);
        }
        assert(overlaps@.to_set() =~= target.filter(
            |y: usize| exists|k: int| 0 <= k < i + 1 && body_object_indices@[k] == y,
        )) by {
            assert(body_object_indices@.to_set().contains(x)) by {
                assert(body_object_indices@[i as int] == x);
            }
            assert forall|y: usize|
                target.filter(
                    |y: usize| exists|k: int| 0 <= k < i + 1 && body_object_indices@[k] == y,
                ).contains(y) implies overlaps@.to_set().contains(y) by {
                let k = choose|k: int| 0 <= k < i + 1 && body_object_indices@[k] == y;
                if k < i {
                    assert(before.contains(y));
                }
            }
        }
        i = i + 1;
    }
    assert(overlaps@.to_set() =~= target) by {
        assert forall|y: usize| target.contains(y) implies overlaps@.to_set().contains(y) by {
            let k = choose|k: int| 0 <= k < body_object_indices@.len() && body_object_indices@[k]
                == y;
        }
    }
    if overlaps.len() == 0 {
        assert(target =~= Set::<usize>::empty());
        Ok(())
    } else {
        assert(overlaps@.to_set().contains(overlaps@[0]));
        proof {
            reveal_strlit("body and marker object sets overlap: ");
            assert("body and marker object sets overlap: "@ =~= overlap_prefix());
        }
        let mut msg = to_owned_string("body and marker object sets overlap: ");
        format_index_list(&mut msg, &overlaps);
        Err(msg)
    }
}

fn vec_contains(v: &Vec<usize>, x: usize) -> (b: bool)
    ensures
        b == v@.to_set().contains(x),
{
    let mut i: usize = 0;
    while i < v.len()
        invariant
            i <= v.len(),
            forall|k: int| 0 <= k < i ==> v@[k] != x,
        decreases v.len() - i,
    {
        if v[i] == x {
            assert(v@.to_set().contains(x)) by {
                assert(v@[i as int] == x);
            }
            return true;
        }
        i = i + 1;
    }
    false
}

pub open spec fn body_starts_with_marker_message() -> Seq<char> {
    seq![
        'l',
        'i',
        's',
        't',
        ' ',
        'b',
        'o',
        'd',
        'y',
        ' ',
        's',
        't',
        'a',
        'r',
        't',
        's',
        ' ',
        'w',
        'i',
        't',
        'h',
        ' ',
        'm',
        'a',
        'r',
        'k',
        'e',
        'r',
        ' ',
        't',
        'e',
        'x',
        't',
    ]
}

/// `Err` exactly when the list item has a non-empty text marker and the body
/// text starts with it.
pub fn validate_list_item_body_excludes_marker(body_text: &str, marker_text: Option<&str>) -> (r:
    Result<(), String>)
    ensures
        r is Err <==> (marker_text matches Some(m) && m@.len() > 0 && m@.len() <= body_text@.len()
            && body_text@.take(m@.len() as int) == m@),
        r matches Err(msg) ==> msg@ == body_starts_with_marker_message(),
{
    let marker = match marker_text {
        Some(m) => m,
        None => return Ok(()),
    };
    let mc = collect_chars(marker);
    if mc.len() == 0 {
        return Ok(());
    }
    let bc = collect_chars(body_text);
    if mc.len() > bc.len() {
        return Ok(());
    }
    let mut i: usize = 0;
    while i < mc.len()
        invariant
            i <= mc.len(),
            mc.len() <= bc.len(),
            bc@ == body_text@,
            mc@ == marker@,
            marker_text == Some(marker),
            forall|k: int| 0 <= k < i ==> bc@[k] == mc@[k],
        decreases mc.len() - i,
    {
        if bc[i] != mc[i] {
            assert(bc@.take(mc.len() as int)[i as int] != mc@[i as int]);
            return Ok(());
        }
        i = i + 1;
    }
    assert(body_text@.take(mc.len() as int) =~= marker@);
    proof {
        reveal_strlit("list body starts with marker text");
        assert("list body starts with marker text"@ =~= body_starts_with_marker_message());
    }
    Err(to_owned_string("list body starts with marker text"))
}

pub open spec fn concat_texts(texts: Seq<String>) -> Seq<char>
    decreases texts.len(),
{
    if texts.len() == 0 {
        Seq::empty()
    } else {
        concat_texts(texts.drop_last()) + texts.last()@
    }
}

pub open spec fn body_differs_message() -> Seq<char> {
    seq![
        's',
        'e',
        'm',
        'a',
        'n',
        't',
        'i',
        'c',
        ' ',
        'b',
        'o',
        'd',
        'y',
        ' ',
        't',
        'e',
        'x',
        't',
        ' ',
        'd',
        'i',
        'f',
        'f',
        'e',
        'r',
        's',
        ' ',
        'f',
        'r',
        'o',
        'm',
        ' ',
        'b',
        'o',
        'd',
        'y',
        ' ',
        'r',
        'u',
        'n',
        ' ',
        't',
        'e',
        'x',
        't',
    ]
}

/// `Ok` when the runs hold no text or their text is the body text.
pub fn validate_body_text_matches_body_runs(body_text: &str, run_texts: &Vec<String>) -> (r: Result<
    (),
    String,
>)
    ensures
        r is Ok <==> (concat_texts(run_texts@).len() == 0 || concat_texts(run_texts@)
            == body_text@),
        r matches Err(msg) ==> msg@ == body_differs_message(),
{
    let mut run_text = String::new();
    let mut i: usize = 0;
    while i < run_texts.len()
        invariant
            i <= run_texts.len(),
            run_text@ == concat_texts(run_texts@.take(i as int)),
        decreases run_texts.len() - i,
    {
        push_str(&mut run_text, run_texts[i].as_str());
        assert(run_texts@.take(i + 1).drop_last() =~= run_texts@.take(i as int));
        i = i + 1;
    }
    assert(run_texts@.take(run_texts.len() as int) =~= run_texts@);
    if run_text.as_str().unicode_len() == 0 || crate::chars::str_eq(run_text.as_str(), body_text) {
        Ok(())
    } else {
        proof {
            reveal_strlit("semantic body text differs from body run text");
            assert("semantic body text differs from body run text"@ =~= body_differs_message());
        }
        Err(to_owned_string("semantic body text differs from body run text"))
    }
}

/// The object indices of all runs, without duplicates, in increasing order.
pub fn collect_layout_run_object_indices(run_object_indices: &Vec<Vec<usize>>) -> (indices: Vec<
    usize,
>)
    ensures
        strictly_increasing(indices@),
        forall|x: usize|
            indices@.contains(x) <==> exists|r: int|
                0 <= r < run_object_indices@.len() && #[trigger] run_object_indices@[r]@.contains(
                    x,
                ),
{
    let mut indices: Vec<usize> = Vec::new();
    let mut r: usize = 0;
    while r < run_object_indices.len()
        invariant
            r <= run_object_indices.len(),
            strictly_increasing(indices@),
            forall|x: usize|
                indices@.contains(x) <==> exists|q: int|
                    0 <= q < r && #[trigger] run_object_indices@[q]@.contains(x),
        decreases run_object_indices.len() - r,
    {
        let run = &run_object_indices[r];
        let mut k: usize = 0;
        while k < run.len()
            invariant
                r < run_object_indices.len(),
                run == run_object_indices@[r as int],
                k <= run.len(),
                strictly_increasing(indices@),
                forall|x: usize|
                    indices@.contains(x) <==> (exists|q: int|
                        0 <= q < r && #[trigger] run_object_indices@[q]@.contains(x)) || run@.take(
                        k as int,
                    ).contains(x),
            decreases run.len() - k,
        {
            let ghost before = indices@;
            insert_sorted_unique(&mut indices, run[k]);
            assert forall|x: usize|
                indices@.contains(x) <==> (exists|q: int|
                    0 <= q < r && #[trigger] run_object_indices@[q]@.contains(x)) || run@.take(
                    k + 1,
                ).contains(x) by {
                assert(indices@.contains(x) == indices@.to_set().contains(x));
                assert(before.contains(x) == before.to_set().contains(x));
                assert(run@.take(k + 1) =~= run@.take(k as int).push(run@[k as int]));
                let t1 = run@.take(k + 1);
                let t0 = run@.take(k as int);
                assert(t1.contains(x) <==> (t0.contains(x) || x == run@[k as int])) by {
                    if t1.contains(x) {
                        let j = choose|j: int| 0 <= j < t1.len() && t1[j] == x;
                        if j < k {
                            assert(t0[j] == x);
                        }
                    }
                    if t0.contains(x) {
                        let j = choose|j: int| 0 <= j < t0.len() && t0[j] == x;
                        assert(t1[j] == x);
                    }
                    if x == run@[k as int] {
                        assert(t1[k as int] == x);
                    }
                }
            }
            k = k + 1;
        }
        assert(run@.take(run.len() as int) =~= run@);
        assert forall|x: usize|
            indices@.contains(x) <==> exists|q: int|
                0 <= q < r + 1 && #[trigger] run_object_indices@[q]@.contains(x) by {
            if run@.contains(x) {
                assert(run_object_indices@[r as int]@.contains(x));
            }
        }
        r = r + 1;
    }
    indices
}

/// The list kind of a list item's source: the kind of its marker, else the
/// kind of its first graphic marker, else no marker.
pub fn list_item_source_list_kind(
    marker_kind: Option<ListMarkerKind>,
    graphic_marker_kinds: &Vec<ListMarkerKind>,
) -> (kind: ListMarkerKind)
    ensures
        kind == match marker_kind {
            Some(k) => k,
            None => if graphic_marker_kinds@.len() > 0 {
                graphic_marker_kinds@[0]
            } else {
                ListMarkerKind::NoMarker
            },
        },
{
    match marker_kind {
        Some(k) => k,
        None => if graphic_marker_kinds.len() > 0 {
            graphic_marker_kinds[0]
        } else {
            ListMarkerKind::NoMarker
        },
    }
}

/// The list kind of a semantic marker made from a visual marker: a graphic
/// marker is a bullet; a text marker takes the kind its visual kind names.
pub fn semantic_marker_kind(kind: VisualMarkerKind, is_graphic: bool) -> (k: ListMarkerKind)
    ensures
        k == if is_graphic {
            ListMarkerKind::Bullet
        } else {
            match kind {
                VisualMarkerKind::TextNumbering => ListMarkerKind::Numbering,
                VisualMarkerKind::TextBullet => ListMarkerKind::Bullet,
                VisualMarkerKind::GraphicBullet => ListMarkerKind::Bullet,
                VisualMarkerKind::Custom => ListMarkerKind::Custom,
                VisualMarkerKind::NoMarker => ListMarkerKind::NoMarker,
            }
        },
{
    if is_graphic {
        return ListMarkerKind::Bullet;
    }
    match kind {
        VisualMarkerKind::TextNumbering => ListMarkerKind::Numbering,
        VisualMarkerKind::TextBullet => ListMarkerKind::Bullet,
        VisualMarkerKind::GraphicBullet => ListMarkerKind::Bullet,
        VisualMarkerKind::Custom => ListMarkerKind::Custom,
        VisualMarkerKind::NoMarker => ListMarkerKind::NoMarker,
    }
}

/// The body text differs from the non-empty text of its runs.
pub open spec fn body_mismatch(body_text: Seq<char>, run_texts: Seq<String>) -> bool {
    !(concat_texts(run_texts).len() == 0 || concat_texts(run_texts) == body_text)
}

/// The body text starts with a non-empty marker text.
pub open spec fn starts_with_marker(body_text: Seq<char>, marker_text: Option<&str>) -> bool {
    marker_text matches Some(m) && m@.len() > 0 && m@.len() <= body_text.len() && body_text.take(
        m@.len() as int,
    ) == m@
}

pub open spec fn flag_count(a: bool, b: bool, c: bool) -> int {
    (if a { 1int } else { 0int }) + (if b { 1int } else { 0int }) + (if c { 1int } else { 0int })
}

/// Validates a semantic block: the body text against the text of its runs
/// and, for a list item (`list_marker_text` is `Some`, holding the text of the
/// primary marker where it is a text marker), the body against the marker
/// text and the body objects against the marker objects. The errors come in
/// that order; the block is valid when there is none.
pub fn validate_semantic_block(
    body_text: &str,
    body_run_texts: &Vec<String>,
    list_marker_text: Option<Option<&str>>,
    provenance: &SourceProvenanceLite,
) -> (v: SemanticModelValidation)
    ensures
        ({
            let c1 = body_mismatch(body_text@, body_run_texts@);
            let c2 = list_marker_text matches Some(m) && starts_with_marker(body_text@, m);
            let c3 = list_marker_text is Some && !overlap_set(
                provenance.body_object_indices@,
                provenance.marker_object_indices@,
                provenance.graphic_marker_object_indices@,
            ).is_empty();
            &&& v.valid <==> v.errors@.len() == 0
            &&& v.errors@.len() == flag_count(c1, c2, c3)
            &&& c1 ==> v.errors@[0]@ == body_differs_message()
            &&& c2 ==> v.errors@[if c1 {
                1int
            } else {
                0int
            }]@ == body_starts_with_marker_message()
            &&& c3 ==> exists|overlaps: Seq<usize>|
                {
                    &&& strictly_increasing(overlaps)
                    &&& overlaps.to_set() == overlap_set(
                        provenance.body_object_indices@,
                        provenance.marker_object_indices@,
                        provenance.graphic_marker_object_indices@,
                    )
                    &&& v.errors@[flag_count(c1, c2, c3) - 1]@ == overlap_prefix() + list_text(
                        overlaps,
                    )
                }
        }),
{
    let mut errors: Vec<String> = Vec::new();
    match validate_body_text_matches_body_runs(body_text, body_run_texts) {
        Ok(()) => {},
        Err(e) => errors.push(e),
    }
    match list_marker_text {
        Some(marker_text) => {
            match validate_list_item_body_excludes_marker(body_text, marker_text) {
                Ok(()) => {},
                Err(e) => errors.push(e),
            }
            match validate_marker_body_object_sets_do_not_overlap(
                &provenance.body_object_indices,
                &provenance.marker_object_indices,
                &provenance.graphic_marker_object_indices,
            ) {
                Ok(()) => {},
                Err(e) => errors.push(e),
            }
        },
        None => {},
    }
    validation_from_errors(errors)
}

/// The provenance of a list item: the body's object indices, the primary
/// marker's object indices (none without a marker) and the object indices of
/// all graphic markers, sorted and without duplicates.
pub fn list_item_provenance(
    body_object_indices: Vec<usize>,
    marker_object_indices: Option<Vec<usize>>,
    graphic_marker_object_indices: &Vec<Vec<usize>>,
) -> (p: SourceProvenanceLite)
    ensures
        p.body_object_indices@ == body_object_indices@,
        p.marker_object_indices@ == match marker_object_indices {
            Some(m) => m@,
            None => Seq::<usize>::empty(),
        },
        strictly_increasing(p.graphic_marker_object_indices@),
        forall|x: usize|
            p.graphic_marker_object_indices@.contains(x) <==> exists|r: int|
                0 <= r < graphic_marker_object_indices@.len()
                    && #[trigger] graphic_marker_object_indices@[r]@.contains(x),
{
    let marker = match marker_object_indices {
        Some(m) => m,
        None => Vec::new(),
    };
    SourceProvenanceLite {
        body_object_indices,
        marker_object_indices: marker,
        graphic_marker_object_indices: collect_layout_run_object_indices(
            graphic_marker_object_indices,
        ),
    }
}

/// A validation result from the errors found.
pub fn validation_from_errors(errors: Vec<String>) -> (v: SemanticModelValidation)
    ensures
        v.valid == (errors@.len() == 0),
        v.errors@ == errors@,
{
    SemanticModelValidation { valid: errors.len() == 0, errors }
}

} // verus!
