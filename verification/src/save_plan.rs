//! The save plan: every region patch becomes a text reflow of its target
//! objects, and a legacy object-level reflow is kept only when no region
//! patch already reflows the same objects of the same page.

use vstd::prelude::*;
use crate::chars::string_push;
use crate::keyed_map::KeyedMap;
use crate::patch_store::{clone_indices, field_row_source, PersistableRegionPatch};
use crate::text_format::{decimal, push_decimal};

verus! {

/// A replacement text for a set of PDF text objects of a page.
pub struct RegionTextReflow {
    pub page_index: u16,
    pub target_indices: Vec<usize>,
    pub new_text: String,
    pub source: String,
}

pub open spec fn reflow_view(r: RegionTextReflow) -> (u16, Seq<usize>, String, String) {
    (r.page_index, r.target_indices@, r.new_text, r.source)
}

pub open spec fn reflow_views(rs: Seq<RegionTextReflow>) -> Seq<(u16, Seq<usize>, String, String)> {
    rs.map_values(|r: RegionTextReflow| reflow_view(r))
}

/// `a,b,c`: numbers in decimal separated by commas.
pub open spec fn comma_list(s: Seq<usize>) -> Seq<char>
    decreases s.len(),
{
    if s.len() == 0 {
        Seq::empty()
    } else if s.len() == 1 {
        decimal(s[0] as nat)
    } else {
        comma_list(s.drop_last()) + seq![','] + decimal(s.last() as nat)
    }
}

/// `<page>::<i1>,<i2>,...`
pub open spec fn spec_reflow_key(page_index: u16, target_indices: Seq<usize>) -> Seq<char> {
    decimal(page_index as nat) + seq![':', ':'] + comma_list(target_indices)
}

/// The key under which reflows of the same objects coincide.
pub fn get_reflow_key(reflow: &RegionTextReflow) -> (key: String)
    ensures
        key@ == spec_reflow_key(reflow.page_index, reflow.target_indices@),
{
    let mut key = String::new();
    push_decimal(&mut key, reflow.page_index as u64);
    string_push(&mut key, ':');
    string_push(&mut key, ':');
    let ghost head = key@;
    let items = &reflow.target_indices;
    let mut i: usize = 0;
    while i < items.len()
        invariant
            i <= items.len(),
            key@ == head + comma_list(items@.take(i as int)),
        decreases items.len() - i,
    {
        if i > 0 {
            string_push(&mut key, ',');
        }
        push_decimal(&mut key, items[i] as u64);
        assert(items@.take(i + 1).drop_last() =~= items@.take(i as int));
        i = i + 1;
    }
    assert(items@.take(items.len() as int) =~= items@);
    key
}

/// `<page>_<index>`: the id of a PDF object of a page.
pub open spec fn object_id(page_index: u16, index: usize) -> Seq<char> {
    decimal(page_index as nat) + seq!['_'] + decimal(index as nat)
}

pub struct PersistableSavePlan {
    pub region_patches: Vec<PersistableRegionPatch>,
    pub text_reflows: Vec<RegionTextReflow>,
    pub suppressed_text_reflows: Vec<RegionTextReflow>,
    /// Ids of the objects that field-row patches cover (the map's keys).
    pub covered_field_row_object_ids: KeyedMap<()>,
    /// Ids of the objects that other region patches cover (the map's keys).
    pub covered_paragraph_object_ids: KeyedMap<()>,
}

pub open spec fn patch_reflow(p: PersistableRegionPatch) -> (u16, Seq<usize>, String, String) {
    (p.page_index, p.target_indices@, p.new_text, p.source)
}

/// Object ids covered by the patches that `pick` selects.
pub open spec fn covered_ids(
    patches: Seq<PersistableRegionPatch>,
    pick: spec_fn(PersistableRegionPatch) -> bool,
) -> Set<Seq<char>> {
    Set::new(
        |id: Seq<char>|
            exists|p: int, j: int|
                0 <= p < patches.len() && pick(patches[p]) && 0 <= j
                    < patches[p].target_indices@.len() && id == object_id(
                    patches[p].page_index,
                    #[trigger] patches[p].target_indices@[j],
                ),
    )
}

pub open spec fn is_field_row_patch() -> spec_fn(PersistableRegionPatch) -> bool {
    |p: PersistableRegionPatch| p.source@ == field_row_source()
}

pub open spec fn is_other_patch() -> spec_fn(PersistableRegionPatch) -> bool {
    |p: PersistableRegionPatch| p.source@ != field_row_source()
}

/// The reflow keys of the region patches.
pub open spec fn region_keys(patches: Seq<PersistableRegionPatch>) -> Set<Seq<char>> {
    Set::new(
        |k: Seq<char>|
            exists|p: int|
                0 <= p < patches.len() && k == spec_reflow_key(
                    #[trigger] patches[p].page_index,
                    patches[p].target_indices@,
                ),
    )
}

/// The legacy reflows whose key is (or is not, for `owned == false`) among
/// `keys`, in order.
pub open spec fn legacy_split(
    legacy: Seq<RegionTextReflow>,
    keys: Set<Seq<char>>,
    owned: bool,
) -> Seq<(u16, Seq<usize>, String, String)>
    decreases legacy.len(),
{
    if legacy.len() == 0 {
        Seq::empty()
    } else {
        let rest = legacy_split(legacy.drop_last(), keys, owned);
        let r = legacy.last();
        if keys.contains(spec_reflow_key(r.page_index, r.target_indices@)) == owned {
            rest.push(reflow_view(r))
        } else {
            rest
        }
    }
}

proof fn lemma_reflow_views_push(rs: Seq<RegionTextReflow>, x: RegionTextReflow)
    ensures
        reflow_views(rs.push(x)) == reflow_views(rs).push(reflow_view(x)),
{
    assert(reflow_views(rs.push(x)) =~= reflow_views(rs).push(reflow_view(x)));
}

fn duplicate_reflow(r: &RegionTextReflow) -> (out: RegionTextReflow)
    ensures
        reflow_view(out) == reflow_view(*r),
{
    RegionTextReflow {
        page_index: r.page_index,
        target_indices: clone_indices(&r.target_indices),
        new_text: r.new_text.clone(),
        source: r.source.clone(),
    }
}

fn object_id_string(page_index: u16, index: usize) -> (id: String)
    ensures
        id@ == object_id(page_index, index),
{
    let mut id = String::new();
    push_decimal(&mut id, page_index as u64);
    string_push(&mut id, '_');
    push_decimal(&mut id, index as u64);
    assert(id@ =~= object_id(page_index, index));
    id
}

/// Builds the save plan from the region patches and the legacy reflows.
pub fn build_persistable_save_plan(
    region_patches: Vec<PersistableRegionPatch>,
    legacy_text_reflows: Vec<RegionTextReflow>,
) -> (plan: PersistableSavePlan)
    ensures
        plan.region_patches@ == region_patches@,
        reflow_views(plan.text_reflows@) == region_patches@.map_values(
            |p: PersistableRegionPatch| patch_reflow(p),
        ) + legacy_split(legacy_text_reflows@, region_keys(region_patches@), false),
        reflow_views(plan.suppressed_text_reflows@) == legacy_split(
            legacy_text_reflows@,
            region_keys(region_patches@),
            true,
        ),
        plan.covered_field_row_object_ids.wf(),
        plan.covered_paragraph_object_ids.wf(),
        plan.covered_field_row_object_ids.view_map().dom() == covered_ids(
            region_patches@,
            is_field_row_patch(),
        ),
        plan.covered_paragraph_object_ids.view_map().dom() == covered_ids(
            region_patches@,
            is_other_patch(),
        ),
{
    let ghost patches = region_patches@;
    let mut covered_field = KeyedMap::<()>::new();
    let mut covered_paragraph = KeyedMap::<()>::new();
    let mut reflows: Vec<RegionTextReflow> = Vec::new();
    let mut keys = KeyedMap::<()>::new();
    let mut p: usize = 0;
    while p < region_patches.len()
        invariant
            patches == region_patches@,
            p <= region_patches.len(),
            covered_field.wf(),
            covered_paragraph.wf(),
            keys.wf(),
            reflow_views(reflows@) == patches.take(p as int).map_values(
                |q: PersistableRegionPatch| patch_reflow(q),
            ),
            keys.view_map().dom() == region_keys(patches.take(p as int)),
            covered_field.view_map().dom() == covered_ids(
                patches.take(p as int),
                is_field_row_patch(),
            ),
            covered_paragraph.view_map().dom() == covered_ids(
                patches.take(p as int),
                is_other_patch(),
            ),
        decreases region_patches.len() - p,
    {
        let patch = &region_patches[p];
        let is_row = crate::chars::str_eq(patch.source.as_str(), "field-row");
        proof {
            reveal_strlit("field-row");
            assert("field-row"@ =~= field_row_source());
        }
        let ghost before_field = covered_field.view_map().dom();
        let ghost before_par = covered_paragraph.view_map().dom();
        let mut j: usize = 0;
        while j < patch.target_indices.len()
            invariant
                patches == region_patches@,
                p < region_patches.len(),
                patch == region_patches@[p as int],
                is_row == (patch.source@ == field_row_source()),
                j <= patch.target_indices.len(),
                covered_field.wf(),
                covered_paragraph.wf(),
                covered_field.view_map().dom() == before_field.union(
                    if is_row {
                        Set::new(
                            |id: Seq<char>|
                                exists|jj: int|
                                    0 <= jj < j && id == object_id(
                                        patch.page_index,
                                        #[trigger] patch.target_indices@[jj],
                                    ),
                        )
                    } else {
                        Set::empty()
                    },
                ),
                covered_paragraph.view_map().dom() == before_par.union(
                    if !is_row {
                        Set::new(
                            |id: Seq<char>|
                                exists|jj: int|
                                    0 <= jj < j && id == object_id(
                                        patch.page_index,
                                        #[trigger] patch.target_indices@[jj],
                                    ),
                        )
                    } else {
                        Set::empty()
                    },
                ),
            decreases patch.target_indices.len() - j,
        {
            let id = object_id_string(patch.page_index, patch.target_indices[j]);
            let ghost idv = id@;
            let ghost bf = covered_field.view_map().dom();
            let ghost bp = covered_paragraph.view_map().dom();
            if is_row {
                covered_field.insert(id, ());
            } else {
                covered_paragraph.insert(id, ());
            }
            assert(covered_field.view_map().dom() =~= before_field.union(
                if is_row {
                    Set::new(
                        |id: Seq<char>|
                            exists|jj: int|
                                0 <= jj < j + 1 && id == object_id(
                                    patch.page_index,
                                    #[trigger] patch.target_indices@[jj],
                                ),
                    )
                } else {
                    Set::empty()
                },
            )) by {
                if is_row {
                    assert(covered_field.view_map().dom() =~= bf.insert(idv));
                } else {
                    assert(covered_field.view_map().dom() == bf);
                }
            }
            assert(covered_paragraph.view_map().dom() =~= before_par.union(
                if !is_row {
                    Set::new(
                        |id: Seq<char>|
                            exists|jj: int|
                                0 <= jj < j + 1 && id == object_id(
                                    patch.page_index,
                                    #[trigger] patch.target_indices@[jj],
                                ),
                    )
                } else {
                    Set::empty()
                },
            )) by {
                if !is_row {
                    assert(covered_paragraph.view_map().dom() =~= bp.insert(idv));
                } else {
                    assert(covered_paragraph.view_map().dom() == bp);
                }
            }
            j = j + 1;
        }
        let reflow = RegionTextReflow {
            page_index: patch.page_index,
            target_indices: clone_indices(&patch.target_indices),
            new_text: patch.new_text.clone(),
            source: patch.source.clone(),
        };
        let key = get_reflow_key(&reflow);
        let ghost kb = keys.view_map().dom();
        keys.insert(key, ());
        let ghost before_reflows = reflows@;
        let ghost added = reflow;
        reflows.push(reflow);
        proof {
            let next = patches.take(p + 1);
            assert(next.drop_last() =~= patches.take(p as int));
            lemma_reflow_views_push(before_reflows, added);
            assert(reflow_view(added) == patch_reflow(patches[p as int]));
            assert(next.map_values(|q: PersistableRegionPatch| patch_reflow(q))
                =~= patches.take(p as int).map_values(|q: PersistableRegionPatch| patch_reflow(q)).push(
                patch_reflow(patches[p as int]),
            ));
            assert(reflow_views(reflows@) =~= next.map_values(
                |q: PersistableRegionPatch| patch_reflow(q),
            ));
            assert(keys.view_map().dom() =~= region_keys(next)) by {
                assert forall|k: Seq<char>| region_keys(next).contains(k) implies keys.view_map().dom().contains(k) by {
                    let q = choose|q: int|
                        0 <= q < next.len() && k == spec_reflow_key(
                            #[trigger] next[q].page_index,
                            next[q].target_indices@,
                        );
                    if q < p {
                        assert(region_keys(patches.take(p as int)).contains(k)) by {
                            assert(patches.take(p as int)[q] == next[q]);
                        }
                    }
                }
                assert forall|k: Seq<char>| keys.view_map().dom().contains(k) implies region_keys(next).contains(k) by {
                    if kb.contains(k) {
                        let q = choose|q: int|
                            0 <= q < patches.take(p as int).len() && k == spec_reflow_key(
                                #[trigger] patches.take(p as int)[q].page_index,
                                patches.take(p as int)[q].target_indices@,
                            );
                        assert(next[q] == patches.take(p as int)[q]);
                    } else {
                        assert(next[p as int] == patches[p as int]);
                    }
                }
            }
            assert(covered_field.view_map().dom() =~= covered_ids(next, is_field_row_patch())) by {
                assert forall|id: Seq<char>| covered_ids(next, is_field_row_patch()).contains(id) implies covered_field.view_map().dom().contains(id) by {
                    let (q, jj) = choose|q: int, jj: int|
                        0 <= q < next.len() && is_field_row_patch()(next[q]) && 0 <= jj
                            < next[q].target_indices@.len() && id == object_id(
                            next[q].page_index,
                            #[trigger] next[q].target_indices@[jj],
                        );
                    if q < p {
                        assert(patches.take(p as int)[q] == next[q]);
                        assert(covered_ids(patches.take(p as int), is_field_row_patch()).contains(id));
                    }
                }
                assert forall|id: Seq<char>| covered_field.view_map().dom().contains(id) implies covered_ids(next, is_field_row_patch()).contains(id) by {
                    if before_field.contains(id) {
                        let (q, jj) = choose|q: int, jj: int|
                            0 <= q < patches.take(p as int).len() && is_field_row_patch()(
                                patches.take(p as int)[q],
                            ) && 0 <= jj < patches.take(p as int)[q].target_indices@.len() && id
                                == object_id(
                                patches.take(p as int)[q].page_index,
                                #[trigger] patches.take(p as int)[q].target_indices@[jj],
                            );
                        assert(next[q] == patches.take(p as int)[q]);
                    } else {
                        assert(next[p as int] == patches[p as int]);
                    }
                }
            }
            assert(covered_paragraph.view_map().dom() =~= covered_ids(next, is_other_patch())) by {
                assert forall|id: Seq<char>| covered_ids(next, is_other_patch()).contains(id) implies covered_paragraph.view_map().dom().contains(id) by {
                    let (q, jj) = choose|q: int, jj: int|
                        0 <= q < next.len() && is_other_patch()(next[q]) && 0 <= jj
                            < next[q].target_indices@.len() && id == object_id(
                            next[q].page_index,
                            #[trigger] next[q].target_indices@[jj],
                        );
                    if q < p {
                        assert(patches.take(p as int)[q] == next[q]);
                        assert(covered_ids(patches.take(p as int), is_other_patch()).contains(id));
                    }
                }
                assert forall|id: Seq<char>| covered_paragraph.view_map().dom().contains(id) implies covered_ids(next, is_other_patch()).contains(id) by {
                    if before_par.contains(id) {
                        let (q, jj) = choose|q: int, jj: int|
                            0 <= q < patches.take(p as int).len() && is_other_patch()(
                                patches.take(p as int)[q],
                            ) && 0 <= jj < patches.take(p as int)[q].target_indices@.len() && id
                                == object_id(
                                patches.take(p as int)[q].page_index,
                                #[trigger] patches.take(p as int)[q].target_indices@[jj],
                            );
                        assert(next[q] == patches.take(p as int)[q]);
                    } else {
                        assert(next[p as int] == patches[p as int]);
                    }
                }
            }
        }
        p = p + 1;
    }
    assert(patches.take(region_patches.len() as int) =~= patches);
    let ghost region_part = reflow_views(reflows@);
    let ghost owned_keys = region_keys(patches);
    let mut suppressed: Vec<RegionTextReflow> = Vec::new();
    let mut l: usize = 0;
    while l < legacy_text_reflows.len()
        invariant
            l <= legacy_text_reflows.len(),
            keys.wf(),
            keys.view_map().dom() == owned_keys,
            reflow_views(reflows@) == region_part + legacy_split(
                legacy_text_reflows@.take(l as int),
                owned_keys,
                false,
            ),
            reflow_views(suppressed@) == legacy_split(
                legacy_text_reflows@.take(l as int),
                owned_keys,
                true,
            ),
        decreases legacy_text_reflows.len() - l,
    {
        let reflow = &legacy_text_reflows[l];
        let key = get_reflow_key(reflow);
        let owned = keys.contains_key(key.as_str());
        let copy = duplicate_reflow(reflow);
        let ghost before_reflows = reflows@;
        let ghost before_suppressed = suppressed@;
        let ghost added = copy;
        proof {
            lemma_reflow_views_push(before_reflows, added);
            lemma_reflow_views_push(before_suppressed, added);
        }
        if owned {
            suppressed.push(copy);
        } else {
            reflows.push(copy);
        }
        proof {
            let next = legacy_text_reflows@.take(l + 1);
            assert(next.drop_last() =~= legacy_text_reflows@.take(l as int));
            assert(next.last() == legacy_text_reflows@[l as int]);
            let prev = legacy_split(legacy_text_reflows@.take(l as int), owned_keys, false);
            assert((region_part + prev).push(reflow_view(added)) =~= region_part + prev.push(reflow_view(added)));
            assert(reflow_views(reflows@) =~= region_part + legacy_split(next, owned_keys, false));
            assert(reflow_views(suppressed@) =~= legacy_split(next, owned_keys, true));
        }
        l = l + 1;
    }
    assert(legacy_text_reflows@.take(legacy_text_reflows.len() as int) =~= legacy_text_reflows@);
    PersistableSavePlan {
        region_patches,
        text_reflows: reflows,
        suppressed_text_reflows: suppressed,
        covered_field_row_object_ids: covered_field,
        covered_paragraph_object_ids: covered_paragraph,
    }
}

} // verus!

verus! {

/// Every legacy reflow ends up in exactly one of the two lists of a save
/// plan: kept, or suppressed by a region patch with the same key.
pub proof fn legacy_reflows_are_partitioned(legacy: Seq<RegionTextReflow>, keys: Set<Seq<char>>)
    ensures
        legacy_split(legacy, keys, true).len() + legacy_split(legacy, keys, false).len()
            == legacy.len(),
    decreases legacy.len(),
{
    if legacy.len() > 0 {
        legacy_reflows_are_partitioned(legacy.drop_last(), keys);
    }
}

} // verus!
