//! The PDF objects a paragraph's runs come from: their object indices, or,
//! for runs that only know the ids of their objects, the drawing order of the
//! vector text objects with those ids.

use vstd::prelude::*;
use crate::chars::str_eq;
use crate::semantic_block::{collect_layout_run_object_indices, insert_sorted_unique, strictly_increasing};

verus! {

/// What the lookup reads of a vector text object: its id and drawing order.
pub struct VectorTextRef {
    pub id: String,
    pub z_index: usize,
}

/// Some run names an object by the id `id`.
pub open spec fn runs_name_id(run_object_ids: Seq<Vec<String>>, id: Seq<char>) -> bool {
    exists|r: int, k: int|
        0 <= r < run_object_ids.len() && 0 <= k < run_object_ids[r]@.len() && (#[trigger] run_object_ids[r]@[k])@
            == id
}

/// Some run names an object by id.
pub open spec fn runs_have_ids(run_object_ids: Seq<Vec<String>>) -> bool {
    exists|r: int| 0 <= r < run_object_ids.len() && (#[trigger] run_object_ids[r])@.len() > 0
}

/// Some run names an object by index.
pub open spec fn runs_have_indices(run_object_indices: Seq<Vec<usize>>) -> bool {
    exists|r: int| 0 <= r < run_object_indices.len() && (#[trigger] run_object_indices[r])@.len() > 0
}

/// The drawing orders of the vector text objects that the runs name by id.
pub open spec fn named_z_indices(objects: Seq<VectorTextRef>, run_object_ids: Seq<Vec<String>>) -> Set<
    usize,
> {
    Set::new(
        |z: usize|
            exists|o: int|
                0 <= o < objects.len() && (#[trigger] objects[o]).z_index == z && runs_name_id(
                    run_object_ids,
                    objects[o].id@,
                ),
    )
}

fn runs_contain_id(run_object_ids: &Vec<Vec<String>>, id: &str) -> (b: bool)
    ensures
        b == runs_name_id(run_object_ids@, id@),
{
    let mut r: usize = 0;
    while r < run_object_ids.len()
        invariant
            r <= run_object_ids.len(),
            forall|q: int, k: int|
                0 <= q < r && 0 <= k < run_object_ids@[q]@.len() ==> (
                #[trigger] run_object_ids@[q]@[k])@ != id@,
        decreases run_object_ids.len() - r,
    {
        let ids = &run_object_ids[r];
        let mut k: usize = 0;
        while k < ids.len()
            invariant
                r < run_object_ids.len(),
                ids == run_object_ids@[r as int],
                k <= ids.len(),
                forall|q: int, j: int|
                    0 <= q < r && 0 <= j < run_object_ids@[q]@.len() ==> (
                    #[trigger] run_object_ids@[q]@[j])@ != id@,
                forall|j: int| 0 <= j < k ==> (#[trigger] ids@[j])@ != id@,
            decreases ids.len() - k,
        {
            if str_eq(ids[k].as_str(), id) {
                assert((run_object_ids@[r as int]@[k as int])@ == id@);
                return true;
            }
            k = k + 1;
        }
        r = r + 1;
    }
    false
}

/// The object indices of a paragraph's runs, sorted and without duplicates.
/// Runs without object indices fall back to the vector text objects they
/// name by id: their drawing orders, sorted and without duplicates. Without
/// either, or without a vector model, nothing is found.
pub fn collect_run_indices(
    run_object_indices: &Vec<Vec<usize>>,
    run_object_ids: &Vec<Vec<String>>,
    vector_text_objects: Option<&Vec<VectorTextRef>>,
) -> (indices: Vec<usize>)
    ensures
        strictly_increasing(indices@),
        runs_have_indices(run_object_indices@) ==> forall|x: usize|
            indices@.contains(x) <==> exists|r: int|
                0 <= r < run_object_indices@.len() && #[trigger] run_object_indices@[r]@.contains(x),
        !runs_have_indices(run_object_indices@) ==> match vector_text_objects {
            Some(objects) => if runs_have_ids(run_object_ids@) {
                indices@.to_set() == named_z_indices(objects@, run_object_ids@)
            } else {
                indices@.len() == 0
            },
            None => indices@.len() == 0,
        },
{
    let direct = collect_layout_run_object_indices(run_object_indices);
    if direct.len() > 0 {
        let x = direct[0];
        assert(direct@.contains(x));
        return direct;
    }
    proof {
        assert forall|r: int| 0 <= r < run_object_indices@.len() implies (
        #[trigger] run_object_indices@[r])@.len() == 0 by {
            if run_object_indices@[r]@.len() > 0 {
                assert(run_object_indices@[r]@.contains(run_object_indices@[r]@[0]));
                assert(direct@.contains(run_object_indices@[r]@[0]));
            }
        }
    }
    let mut has_ids = false;
    let mut r: usize = 0;
    while r < run_object_ids.len()
        invariant
            r <= run_object_ids.len(),
            has_ids == exists|q: int| 0 <= q < r && (#[trigger] run_object_ids@[q])@.len() > 0,
        decreases run_object_ids.len() - r,
    {
        if run_object_ids[r].len() > 0 {
            has_ids = true;
        }
        r = r + 1;
    }
    if !has_ids {
        return Vec::new();
    }
    let objects = match vector_text_objects {
        Some(objects) => objects,
        None => return Vec::new(),
    };
    let ghost target = named_z_indices(objects@, run_object_ids@);
    let mut found: Vec<usize> = Vec::new();
    let mut o: usize = 0;
    while o < objects.len()
        invariant
            o <= objects.len(),
            target == named_z_indices(objects@, run_object_ids@),
            strictly_increasing(found@),
            forall|z: usize|
                found@.contains(z) <==> exists|p: int|
                    0 <= p < o && (#[trigger] objects@[p]).z_index == z && runs_name_id(
                        run_object_ids@,
                        objects@[p].id@,
                    ),
        decreases objects.len() - o,
    {
        let object = &objects[o];
        let named = runs_contain_id(run_object_ids, object.id.as_str());
        let ghost before = found@;
        if named {
            insert_sorted_unique(&mut found, object.z_index);
        }
        assert forall|z: usize|
            found@.contains(z) <==> exists|p: int|
                0 <= p < o + 1 && (#[trigger] objects@[p]).z_index == z && runs_name_id(
                    run_object_ids@,
                    objects@[p].id@,
                ) by {
            assert(found@.contains(z) == found@.to_set().contains(z));
            assert(before.contains(z) == before.to_set().contains(z));
            if named && z == object.z_index {
                assert(objects@[o as int].z_index == z);
            }
        }
        o = o + 1;
    }
    assert(found@.to_set() =~= target) by {
        assert forall|z: usize| found@.to_set().contains(z) <==> target.contains(z) by {
            assert(found@.to_set().contains(z) == found@.contains(z));
        }
    }
    found
}

} // verus!

verus! {

/// The ids of all runs, run by run.
pub open spec fn flat_ids(runs: Seq<Vec<String>>) -> Seq<Seq<char>>
    decreases runs.len(),
{
    if runs.len() == 0 {
        Seq::empty()
    } else {
        flat_ids(runs.drop_last()) + runs.last()@.map_values(|s: String| s@)
    }
}

/// The distinct elements of `s` in the order of their first occurrence.
pub open spec fn first_occurrences(s: Seq<Seq<char>>) -> Seq<Seq<char>>
    decreases s.len(),
{
    if s.len() == 0 {
        Seq::empty()
    } else {
        let rest = first_occurrences(s.drop_last());
        if rest.contains(s.last()) {
            rest
        } else {
            rest.push(s.last())
        }
    }
}

/// The order of the source objects of a paragraph: the ids its display runs
/// name, each once, in the order they first appear; where the display runs
/// name none, the ids of the runs of its editor session, likewise.
pub open spec fn spec_source_object_order(
    display_run_ids: Seq<Vec<String>>,
    session_run_ids: Seq<Vec<String>>,
) -> Seq<Seq<char>> {
    if first_occurrences(flat_ids(display_run_ids)).len() > 0 {
        first_occurrences(flat_ids(display_run_ids))
    } else {
        first_occurrences(flat_ids(session_run_ids))
    }
}

fn contains_text(items: &Vec<String>, id: &str) -> (b: bool)
    ensures
        b == items@.map_values(|s: String| s@).contains(id@),
{
    let mut i: usize = 0;
    while i < items.len()
        invariant
            i <= items.len(),
            forall|k: int| 0 <= k < i ==> (#[trigger] items@[k])@ != id@,
        decreases items.len() - i,
    {
        if str_eq(items[i].as_str(), id) {
            assert(items@.map_values(|s: String| s@)[i as int] == id@);
            return true;
        }
        i = i + 1;
    }
    assert(!items@.map_values(|s: String| s@).contains(id@)) by {
        if items@.map_values(|s: String| s@).contains(id@) {
            let views = items@.map_values(|s: String| s@);
            let k = choose|k: int| 0 <= k < views.len() && #[trigger] views[k] == id@;
            assert(items@[k]@ == id@);
        }
    }
    false
}

/// Appends to `order`, which holds the first occurrences of `seen`, the ids
/// of `runs` that it does not hold yet, in order.
fn push_first_occurrences(
    order: &mut Vec<String>,
    runs: &Vec<Vec<String>>,
    Ghost(seen): Ghost<Seq<Seq<char>>>,
)
    requires
        old(order)@.map_values(|s: String| s@) == first_occurrences(seen),
    ensures
        final(order)@.map_values(|s: String| s@) == first_occurrences(seen + flat_ids(runs@)),
{
    let mut r: usize = 0;
    while r < runs.len()
        invariant
            r <= runs.len(),
            order@.map_values(|s: String| s@) == first_occurrences(
                seen + flat_ids(runs@.take(r as int)),
            ),
        decreases runs.len() - r,
    {
        let ids = &runs[r];
        let ghost prefix = seen + flat_ids(runs@.take(r as int));
        assert(runs@.take(r + 1).drop_last() =~= runs@.take(r as int));
        let mut k: usize = 0;
        while k < ids.len()
            invariant
                r < runs.len(),
                ids == runs@[r as int],
                k <= ids.len(),
                prefix == seen + flat_ids(runs@.take(r as int)),
                order@.map_values(|s: String| s@) == first_occurrences(
                    prefix + ids@.take(k as int).map_values(|s: String| s@),
                ),
            decreases ids.len() - k,
        {
            let id = ids[k].as_str();
            let ghost done = prefix + ids@.take(k as int).map_values(|s: String| s@);
            let ghost next = prefix + ids@.take(k + 1).map_values(|s: String| s@);
            assert(next.drop_last() =~= done);
            assert(next.last() == id@);
            let ghost before = order@;
            if !contains_text(order, id) {
                order.push(ids[k].clone());
                assert(order@.map_values(|s: String| s@) =~= before.map_values(|s: String| s@).push(
                    id@,
                ));
            }
            k = k + 1;
        }
        assert(ids@.take(ids.len() as int) =~= ids@);
        assert(seen + flat_ids(runs@.take(r + 1)) =~= prefix + ids@.map_values(|s: String| s@));
        r = r + 1;
    }
    assert(runs@.take(runs.len() as int) =~= runs@);
}

/// The order of the source objects of a paragraph (see
/// `spec_source_object_order`), from the object ids of its display runs and
/// of the runs of its editor session.
pub fn resolve_vector_source_object_order(
    display_run_object_ids: &Vec<Vec<String>>,
    session_run_object_ids: &Vec<Vec<String>>,
) -> (order: Vec<String>)
    ensures
        order@.map_values(|s: String| s@) == spec_source_object_order(
            display_run_object_ids@,
            session_run_object_ids@,
        ),
{
    let mut order: Vec<String> = Vec::new();
    assert(order@.map_values(|s: String| s@) =~= first_occurrences(Seq::empty()));
    push_first_occurrences(&mut order, display_run_object_ids, Ghost(Seq::empty()));
    assert(Seq::<Seq<char>>::empty() + flat_ids(display_run_object_ids@) =~= flat_ids(
        display_run_object_ids@,
    ));
    if order.len() > 0 {
        return order;
    }
    let mut fallback: Vec<String> = Vec::new();
    assert(fallback@.map_values(|s: String| s@) =~= first_occurrences(Seq::empty()));
    push_first_occurrences(&mut fallback, session_run_object_ids, Ghost(Seq::empty()));
    assert(Seq::<Seq<char>>::empty() + flat_ids(session_run_object_ids@) =~= flat_ids(
        session_run_object_ids@,
    ));
    fallback
}

/// The object order names each object once.
pub proof fn first_occurrences_are_distinct(s: Seq<Seq<char>>)
    ensures
        forall|i: int, j: int|
            0 <= i < j < first_occurrences(s).len() ==> first_occurrences(s)[i]
                != first_occurrences(s)[j],
        forall|x: Seq<char>| first_occurrences(s).contains(x) <==> s.contains(x),
    decreases s.len(),
{
    if s.len() > 0 {
        first_occurrences_are_distinct(s.drop_last());
        let rest = first_occurrences(s.drop_last());
        assert forall|x: Seq<char>| first_occurrences(s).contains(x) <==> s.contains(x) by {
            if s.contains(x) && !s.drop_last().contains(x) {
                let k = choose|k: int| 0 <= k < s.len() && s[k] == x;
                if k < s.len() - 1 {
                    assert(s.drop_last()[k] == x);
                }
                if !rest.contains(s.last()) {
                    assert(first_occurrences(s)[rest.len() as int] == x);
                }
            }
            if s.drop_last().contains(x) {
                let k = choose|k: int| 0 <= k < s.drop_last().len() && s.drop_last()[k] == x;
                assert(s[k] == x);
                if !rest.contains(s.last()) {
                    let m = choose|m: int| 0 <= m < rest.len() && rest[m] == x;
                    assert(first_occurrences(s)[m] == x);
                }
            }
            if first_occurrences(s).contains(x) {
                let m = choose|m: int| 0 <= m < first_occurrences(s).len() && first_occurrences(
                    s,
                )[m] == x;
                if m < rest.len() {
                    assert(rest[m] == x);
                    assert(rest.contains(x));
                } else {
                    assert(x == s.last());
                    assert(s[s.len() - 1] == x);
                }
            }
        }
    }
}

/// The ids of all runs of all groups, group after group.
pub open spec fn group_ids(groups: Seq<Vec<Vec<String>>>) -> Seq<Seq<char>>
    decreases groups.len(),
{
    if groups.len() == 0 {
        Seq::empty()
    } else {
        group_ids(groups.drop_last()) + flat_ids(groups.last()@)
    }
}

/// The ids of the source objects of an edit target, each once, in the order
/// they first appear among the run groups of the target (its original runs,
/// the body runs of its scene and plan, the runs of its editor session and
/// the runs of its marker).
pub fn collect_target_source_object_ids(run_object_id_groups: &Vec<Vec<Vec<String>>>) -> (ids: Vec<
    String,
>)
    ensures
        ids@.map_values(|s: String| s@) == first_occurrences(group_ids(run_object_id_groups@)),
{
    let mut ids: Vec<String> = Vec::new();
    assert(ids@.map_values(|s: String| s@) =~= first_occurrences(Seq::empty()));
    let mut g: usize = 0;
    while g < run_object_id_groups.len()
        invariant
            g <= run_object_id_groups.len(),
            ids@.map_values(|s: String| s@) == first_occurrences(
                group_ids(run_object_id_groups@.take(g as int)),
            ),
        decreases run_object_id_groups.len() - g,
    {
        assert(run_object_id_groups@.take(g + 1).drop_last() =~= run_object_id_groups@.take(
            g as int,
        ));
        push_first_occurrences(
            &mut ids,
            &run_object_id_groups[g],
            Ghost(group_ids(run_object_id_groups@.take(g as int))),
        );
        g = g + 1;
    }
    assert(run_object_id_groups@.take(run_object_id_groups.len() as int) =~= run_object_id_groups@);
    ids
}

/// The object indices of all runs of all groups of an edit target, sorted
/// and without duplicates.
pub fn collect_target_source_object_indices(run_object_index_groups: &Vec<Vec<Vec<usize>>>) -> (indices: Vec<
    usize,
>)
    ensures
        strictly_increasing(indices@),
        forall|x: usize|
            indices@.contains(x) <==> exists|g: int, r: int|
                0 <= g < run_object_index_groups@.len() && 0 <= r
                    < run_object_index_groups@[g]@.len()
                    && #[trigger] run_object_index_groups@[g]@[r]@.contains(x),
{
    let mut indices: Vec<usize> = Vec::new();
    let mut g: usize = 0;
    while g < run_object_index_groups.len()
        invariant
            g <= run_object_index_groups.len(),
            strictly_increasing(indices@),
            forall|x: usize|
                indices@.contains(x) <==> exists|q: int, r: int|
                    0 <= q < g && 0 <= r < run_object_index_groups@[q]@.len()
                        && #[trigger] run_object_index_groups@[q]@[r]@.contains(x),
        decreases run_object_index_groups.len() - g,
    {
        let group = collect_layout_run_object_indices(&run_object_index_groups[g]);
        let mut k: usize = 0;
        let ghost start = indices@;
        while k < group.len()
            invariant
                g < run_object_index_groups.len(),
                k <= group.len(),
                strictly_increasing(indices@),
                forall|x: usize|
                    #[trigger] indices@.contains(x) <==> (start.contains(x) || group@.take(
                        k as int,
                    ).contains(x)),
            decreases group.len() - k,
        {
            let ghost before = indices@;
            insert_sorted_unique(&mut indices, group[k]);
            assert forall|x: usize| #[trigger] indices@.contains(x) <==> (start.contains(x)
                || group@.take(k + 1).contains(x)) by {
                assert(indices@.contains(x) == indices@.to_set().contains(x));
                assert(before.contains(x) == before.to_set().contains(x));
                assert(indices@.to_set() == before.to_set().insert(group@[k as int]));
                assert(group@.take(k + 1) =~= group@.take(k as int).push(group@[k as int]));
                let t1 = group@.take(k + 1);
                let t0 = group@.take(k as int);
                if t1.contains(x) {
                    let j = choose|j: int| 0 <= j < t1.len() && t1[j] == x;
                    if j < k {
                        assert(t0[j] == x);
                    }
                }
                if t0.contains(x) {
                    let j = choose|j: int| 0 <= j < t0.len() && t0[j] == x;
                    assert(t1[j] == x);
                }
                if x == group@[k as int] {
                    assert(t1[k as int] == x);
                }
            }
            k = k + 1;
        }
        assert(group@.take(group.len() as int) =~= group@);
        assert forall|x: usize|
            indices@.contains(x) <==> exists|q: int, r: int|
                0 <= q < g + 1 && 0 <= r < run_object_index_groups@[q]@.len()
                    && #[trigger] run_object_index_groups@[q]@[r]@.contains(x) by {
            if group@.contains(x) {
                let r = choose|r: int|
                    0 <= r < run_object_index_groups@[g as int]@.len()
                        && #[trigger] run_object_index_groups@[g as int]@[r]@.contains(x);
                assert(run_object_index_groups@[g as int]@[r]@.contains(x));
            }
            if exists|r: int|
                0 <= r < run_object_index_groups@[g as int]@.len()
                    && #[trigger] run_object_index_groups@[g as int]@[r]@.contains(x) {
                let r = choose|r: int|
                    0 <= r < run_object_index_groups@[g as int]@.len()
                        && #[trigger] run_object_index_groups@[g as int]@[r]@.contains(x);
                assert(group@.contains(x));
            }
        }
        g = g + 1;
    }
    indices
}

} // verus!
