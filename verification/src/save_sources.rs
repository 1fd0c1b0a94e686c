//! What a page contributes to a save: the region patches for the regions
//! whose text was edited, and the object-level reflows of the text objects
//! that no region patch covers.

use vstd::prelude::*;
use crate::chars::string_push;
use crate::editor_state::LayoutAlignment;
use crate::keyed_map::KeyedMap;
use crate::patch_store::{
    clone_indices, field_row_source, list_item_region_source, paragraph_region_source,
    GlobalPatchState, PersistableRegionPatch,
};
use crate::save_plan::RegionTextReflow;
use crate::semantic_block::{collect_layout_run_object_indices, insert_sorted_unique, strictly_increasing};
use crate::text_format::{concat_str, decimal, push_decimal, to_owned_string};

verus! {

/// What the save reads of a field group of a row: its ids, the key and value
/// texts of its pair and its PDF objects.
pub struct FieldGroupSource {
    pub id: String,
    pub pair_id: String,
    pub key_text: String,
    pub value_text: String,
    pub object_indices: Vec<usize>,
}

/// A field row and its groups.
pub struct FieldRowSource {
    pub id: String,
    pub groups: Vec<FieldGroupSource>,
}

/// A paragraph or list item region: its id, source text and PDF objects.
pub struct TextRegionSource {
    pub id: String,
    pub text: String,
    pub object_indices: Vec<usize>,
}

/// A PDF text object of the page: its id, number of runs and object indices.
pub struct TextObjectSource {
    pub id: String,
    pub run_count: usize,
    pub object_indices: Vec<usize>,
}

/// The regions and text objects of a page.
pub struct PageRegionSources {
    pub field_rows: Vec<FieldRowSource>,
    pub paragraph_regions: Vec<TextRegionSource>,
    pub list_item_regions: Vec<TextRegionSource>,
    pub text_objects: Vec<TextObjectSource>,
}

// ---------------------------------------------------------------------------
// Legacy object reflows
// ---------------------------------------------------------------------------

/// `<object id>_<run index>`: the key of a patched run.
pub open spec fn run_key(object_id: Seq<char>, run: int) -> Seq<char> {
    object_id + seq!['_'] + decimal(run as nat)
}

/// Some run of the object has a patched text.
pub open spec fn has_run_patch(run_texts: Map<Seq<char>, String>, object: TextObjectSource) -> bool {
    exists|i: int| 0 <= i < object.run_count && #[trigger] run_texts.contains_key(run_key(object.id@, i))
}

pub open spec fn run_source() -> Seq<char> {
    seq!['r', 'u', 'n']
}

pub open spec fn object_source() -> Seq<char> {
    seq!['o', 'b', 'j', 'e', 'c', 't']
}

/// A reflow as plain values: page, object indices, new text and source.
pub open spec fn reflow_text_view(r: RegionTextReflow) -> (u16, Seq<usize>, String, Seq<char>) {
    (r.page_index, r.target_indices@, r.new_text, r.source@)
}

/// The object reflows of `objects`, in order: an object that no region patch
/// covers and that has a patched text is rewritten with that text, marked
/// `run` where one of its runs was patched and `object` otherwise.
pub open spec fn spec_legacy_reflows(
    objects: Seq<TextObjectSource>,
    page_index: u16,
    covered_field_ids: Set<Seq<char>>,
    covered_paragraph_ids: Set<Seq<char>>,
    run_texts: Map<Seq<char>, String>,
    texts: Map<Seq<char>, String>,
) -> Seq<(u16, Seq<usize>, String, Seq<char>)>
    decreases objects.len(),
{
    if objects.len() == 0 {
        Seq::empty()
    } else {
        let rest = spec_legacy_reflows(
            objects.drop_last(),
            page_index,
            covered_field_ids,
            covered_paragraph_ids,
            run_texts,
            texts,
        );
        let o = objects.last();
        if covered_field_ids.contains(o.id@) || covered_paragraph_ids.contains(o.id@)
            || !texts.contains_key(o.id@) {
            rest
        } else {
            rest.push(
                (
                    page_index,
                    o.object_indices@,
                    texts[o.id@],
                    if has_run_patch(run_texts, o) {
                        run_source()
                    } else {
                        object_source()
                    },
                ),
            )
        }
    }
}

fn run_key_string(object_id: &str, run: usize) -> (key: String)
    ensures
        key@ == run_key(object_id@, run as int),
{
    let mut key = to_owned_string(object_id);
    string_push(&mut key, '_');
    push_decimal(&mut key, run as u64);
    assert(key@ =~= run_key(object_id@, run as int));
    key
}

/// Whether one of the object's runs has a patched text.
fn object_has_run_patch(run_texts: &KeyedMap<String>, object: &TextObjectSource) -> (b: bool)
    requires
        run_texts.wf(),
    ensures
        b == has_run_patch(run_texts.view_map(), *object),
{
    let mut i: usize = 0;
    while i < object.run_count
        invariant
            run_texts.wf(),
            i <= object.run_count,
            forall|k: int| 0 <= k < i ==> !(#[trigger] run_texts.view_map().contains_key(run_key(object.id@, k))),
        decreases object.run_count - i,
    {
        let key = run_key_string(object.id.as_str(), i);
        if run_texts.contains_key(key.as_str()) {
            return true;
        }
        i = i + 1;
    }
    false
}

fn copy_text(s: &String) -> (out: String)
    ensures
        out == *s,
{
    s.clone()
}

proof fn lemma_legacy_step(
    objects: Seq<TextObjectSource>,
    i: int,
    page_index: u16,
    covered_field_ids: Set<Seq<char>>,
    covered_paragraph_ids: Set<Seq<char>>,
    run_texts: Map<Seq<char>, String>,
    texts: Map<Seq<char>, String>,
)
    requires
        0 <= i < objects.len(),
    ensures
        ({
            let rest = spec_legacy_reflows(
                objects.take(i),
                page_index,
                covered_field_ids,
                covered_paragraph_ids,
                run_texts,
                texts,
            );
            let o = objects[i];
            spec_legacy_reflows(
                objects.take(i + 1),
                page_index,
                covered_field_ids,
                covered_paragraph_ids,
                run_texts,
                texts,
            ) == if covered_field_ids.contains(o.id@) || covered_paragraph_ids.contains(o.id@)
                || !texts.contains_key(o.id@) {
                rest
            } else {
                rest.push(
                    (
                        page_index,
                        o.object_indices@,
                        texts[o.id@],
                        if has_run_patch(run_texts, o) {
                            run_source()
                        } else {
                            object_source()
                        },
                    ),
                )
            }
        }),
{
    assert(objects.take(i + 1).drop_last() =~= objects.take(i));
}

/// The object-level reflows of a page: every text object that no region
/// patch covers (by its id) and whose text was patched.
pub fn collect_legacy_text_reflows(
    sources: &PageRegionSources,
    page_index: u16,
    covered_field_row_object_ids: &KeyedMap<()>,
    covered_paragraph_object_ids: &KeyedMap<()>,
    state: &GlobalPatchState,
) -> (reflows: Vec<RegionTextReflow>)
    requires
        covered_field_row_object_ids.wf(),
        covered_paragraph_object_ids.wf(),
        state.wf(),
    ensures
        reflows@.map_values(|r: RegionTextReflow| reflow_text_view(r)) == spec_legacy_reflows(
            sources.text_objects@,
            page_index,
            covered_field_row_object_ids.view_map().dom(),
            covered_paragraph_object_ids.view_map().dom(),
            state.patched_run_texts.view_map(),
            state.patched_texts.view_map(),
        ),
{
    let ghost objects = sources.text_objects@;
    let ghost cf = covered_field_row_object_ids.view_map().dom();
    let ghost cp = covered_paragraph_object_ids.view_map().dom();
    let ghost rt = state.patched_run_texts.view_map();
    let ghost tx = state.patched_texts.view_map();
    let mut reflows: Vec<RegionTextReflow> = Vec::new();
    let mut i: usize = 0;
    while i < sources.text_objects.len()
        invariant
            objects == sources.text_objects@,
            covered_field_row_object_ids.wf(),
            covered_paragraph_object_ids.wf(),
            state.wf(),
            cf == covered_field_row_object_ids.view_map().dom(),
            cp == covered_paragraph_object_ids.view_map().dom(),
            rt == state.patched_run_texts.view_map(),
            tx == state.patched_texts.view_map(),
            i <= objects.len(),
            reflows@.map_values(|r: RegionTextReflow| reflow_text_view(r)) == spec_legacy_reflows(
                objects.take(i as int),
                page_index,
                cf,
                cp,
                rt,
                tx,
            ),
        decreases objects.len() - i,
    {
        proof {
            lemma_legacy_step(objects, i as int, page_index, cf, cp, rt, tx);
        }
        let object = &sources.text_objects[i];
        let id = object.id.as_str();
        let ghost before = reflows@;
        if !covered_field_row_object_ids.contains_key(id)
            && !covered_paragraph_object_ids.contains_key(id) {
            match state.patched_texts.get(id) {
                Some(new_text) => {
                    let source = if object_has_run_patch(&state.patched_run_texts, object) {
                        proof {
                            reveal_strlit("run");
                            assert("run"@ =~= run_source());
                        }
                        to_owned_string("run")
                    } else {
                        proof {
                            reveal_strlit("object");
                            assert("object"@ =~= object_source());
                        }
                        to_owned_string("object")
                    };
                    let reflow = RegionTextReflow {
                        page_index,
                        target_indices: clone_indices(&object.object_indices),
                        new_text: copy_text(new_text),
                        source,
                    };
                    let ghost added = reflow;
                    reflows.push(reflow);
                    assert(reflows@.map_values(|r: RegionTextReflow| reflow_text_view(r))
                        =~= before.map_values(|r: RegionTextReflow| reflow_text_view(r)).push(
                        reflow_text_view(added),
                    ));
                },
                None => {},
            }
        }
        i = i + 1;
    }
    assert(objects.take(objects.len() as int) =~= objects);
    reflows
}

} // verus!

verus! {

// ---------------------------------------------------------------------------
// Region patches
// ---------------------------------------------------------------------------

/// A collected patch as plain values: (patch key, page, region id), (original
/// text, new text, source), (snapshot JSON text, group id), (object indices,
/// alignment).
pub type PatchDesc = (
    (Seq<char>, u16, Seq<char>),
    (Seq<char>, Seq<char>, Seq<char>),
    (Option<Seq<char>>, Option<Seq<char>>),
    (Seq<usize>, Option<LayoutAlignment>),
);

pub open spec fn opt_view(o: Option<String>) -> Option<Seq<char>> {
    match o {
        Some(s) => Some(s@),
        None => None,
    }
}

pub open spec fn patch_desc(p: PersistableRegionPatch) -> PatchDesc {
    (
        (p.patch_key@, p.page_index, p.region_id@),
        (p.original_text@, p.new_text@, p.source@),
        (opt_view(p.snapshot), opt_view(p.group_id)),
        (p.target_indices@, p.align),
    )
}

/// The fields a collected patch leaves empty.
pub open spec fn is_bare(p: PersistableRegionPatch) -> bool {
    &&& p.marker_text is None
    &&& p.new_marker_text is None
    &&& p.kind is None
    &&& p.pair_id is None
    &&& p.field_kind is None
    &&& p.field_name is None
    &&& p.original_value_text is None
    &&& p.new_value_text is None
    &&& p.full_target_indices@.len() == 0
    &&& p.semantic_ops@.len() == 0
}

pub open spec fn json_null() -> Seq<char> {
    seq!['n', 'u', 'l', 'l']
}

/// The JSON text of an optional stored snapshot: the snapshot, or `null`.
pub open spec fn snapshot_json(snapshots: Map<Seq<char>, String>, key: Seq<char>) -> Seq<char> {
    if snapshots.contains_key(key) {
        snapshots[key]@
    } else {
        json_null()
    }
}

/// The patches of the edited groups of a row, in order.
pub open spec fn group_patches(
    row_id: Seq<char>,
    groups: Seq<FieldGroupSource>,
    page_index: u16,
    texts: Map<Seq<char>, String>,
    snapshots: Map<Seq<char>, String>,
) -> Seq<PatchDesc>
    decreases groups.len(),
{
    if groups.len() == 0 {
        Seq::empty()
    } else {
        let rest = group_patches(row_id, groups.drop_last(), page_index, texts, snapshots);
        let g = groups.last();
        let k = g.pair_id@;
        if texts.contains_key(k) {
            rest.push(
                (
                    (k, page_index, row_id),
                    (g.key_text@ + g.value_text@, texts[k]@, field_row_source()),
                    (Some(snapshot_json(snapshots, k)), Some(g.id@)),
                    (g.object_indices@, Some(LayoutAlignment::Left)),
                ),
            )
        } else {
            rest
        }
    }
}

/// The patches of the edited groups of all rows, in order.
pub open spec fn row_patches(
    rows: Seq<FieldRowSource>,
    page_index: u16,
    texts: Map<Seq<char>, String>,
    snapshots: Map<Seq<char>, String>,
) -> Seq<PatchDesc>
    decreases rows.len(),
{
    if rows.len() == 0 {
        Seq::empty()
    } else {
        row_patches(rows.drop_last(), page_index, texts, snapshots) + group_patches(
            rows.last().id@,
            rows.last().groups@,
            page_index,
            texts,
            snapshots,
        )
    }
}

/// The patches of the edited regions, in order, with the given source.
pub open spec fn region_patches(
    regions: Seq<TextRegionSource>,
    source: Seq<char>,
    page_index: u16,
    texts: Map<Seq<char>, String>,
    snapshots: Map<Seq<char>, String>,
) -> Seq<PatchDesc>
    decreases regions.len(),
{
    if regions.len() == 0 {
        Seq::empty()
    } else {
        let rest = region_patches(regions.drop_last(), source, page_index, texts, snapshots);
        let r = regions.last();
        let k = r.id@;
        if texts.contains_key(k) {
            rest.push(
                (
                    (k, page_index, k),
                    (r.text@, texts[k]@, source),
                    (Some(snapshot_json(snapshots, k)), None),
                    (r.object_indices@, Some(LayoutAlignment::Left)),
                ),
            )
        } else {
            rest
        }
    }
}

fn snapshot_text(snapshots: &KeyedMap<String>, key: &str) -> (text: String)
    requires
        snapshots.wf(),
    ensures
        text@ == snapshot_json(snapshots.view_map(), key@),
{
    match snapshots.get(key) {
        Some(s) => s.clone(),
        None => {
            proof {
                reveal_strlit("null");
                assert("null"@ =~= json_null());
            }
            to_owned_string("null")
        },
    }
}

fn bare_patch(
    patch_key: String,
    page_index: u16,
    region_id: String,
    original_text: String,
    new_text: String,
    source: String,
    snapshot: String,
    group_id: Option<String>,
    target_indices: Vec<usize>,
) -> (p: PersistableRegionPatch)
    ensures
        patch_desc(p) == (
            (patch_key@, page_index, region_id@),
            (original_text@, new_text@, source@),
            (Some(snapshot@), opt_view(group_id)),
            (target_indices@, Some(LayoutAlignment::Left)),
        ),
        is_bare(p),
{
    PersistableRegionPatch {
        patch_key,
        page_index,
        region_id,
        original_text,
        new_text,
        source,
        marker_text: None,
        new_marker_text: None,
        snapshot: Some(snapshot),
        kind: None,
        pair_id: None,
        group_id,
        field_kind: None,
        field_name: None,
        original_value_text: None,
        new_value_text: None,
        target_indices,
        full_target_indices: Vec::new(),
        align: Some(LayoutAlignment::Left),
        semantic_ops: Vec::new(),
    }
}

proof fn lemma_descs_push(ps: Seq<PersistableRegionPatch>, p: PersistableRegionPatch)
    ensures
        ps.push(p).map_values(|q: PersistableRegionPatch| patch_desc(q)) == ps.map_values(
            |q: PersistableRegionPatch| patch_desc(q),
        ).push(patch_desc(p)),
{
    assert(ps.push(p).map_values(|q: PersistableRegionPatch| patch_desc(q)) =~= ps.map_values(
        |q: PersistableRegionPatch| patch_desc(q),
    ).push(patch_desc(p)));
}

/// Appends the patches of the edited regions to `patches`.
fn push_region_patches(
    patches: &mut Vec<PersistableRegionPatch>,
    regions: &Vec<TextRegionSource>,
    source: &str,
    page_index: u16,
    texts: &KeyedMap<String>,
    snapshots: &KeyedMap<String>,
)
    requires
        texts.wf(),
        snapshots.wf(),
    ensures
        final(patches)@.map_values(|q: PersistableRegionPatch| patch_desc(q)) == old(
            patches,
        )@.map_values(|q: PersistableRegionPatch| patch_desc(q)) + region_patches(
            regions@,
            source@,
            page_index,
            texts.view_map(),
            snapshots.view_map(),
        ),
        forall|i: int|
            old(patches)@.len() <= i < final(patches)@.len() ==> is_bare(
                #[trigger] final(patches)@[i],
            ),
        forall|i: int| 0 <= i < old(patches)@.len() ==> #[trigger] final(patches)@[i] == old(patches)@[i],
{
    let ghost start = patches@.map_values(|q: PersistableRegionPatch| patch_desc(q));
    let ghost start_len = patches@.len();
    let ghost first = patches@;
    let mut i: usize = 0;
    while i < regions.len()
        invariant
            texts.wf(),
            snapshots.wf(),
            i <= regions.len(),
            start_len <= patches@.len(),
            patches@.map_values(|q: PersistableRegionPatch| patch_desc(q)) == start + region_patches(
                regions@.take(i as int),
                source@,
                page_index,
                texts.view_map(),
                snapshots.view_map(),
            ),
            forall|k: int| start_len <= k < patches@.len() ==> is_bare(#[trigger] patches@[k]),
            forall|k: int| 0 <= k < start_len ==> #[trigger] patches@[k] == first[k],
        decreases regions.len() - i,
    {
        let region = &regions[i];
        assert(regions@.take(i + 1).drop_last() =~= regions@.take(i as int));
        let ghost before = patches@;
        match texts.get(region.id.as_str()) {
            Some(new_text) => {
                let snapshot = snapshot_text(snapshots, region.id.as_str());
                let p = bare_patch(
                    region.id.clone(),
                    page_index,
                    region.id.clone(),
                    region.text.clone(),
                    new_text.clone(),
                    to_owned_string(source),
                    snapshot,
                    None,
                    clone_indices(&region.object_indices),
                );
                let ghost added = p;
                patches.push(p);
                proof {
                    lemma_descs_push(before, added);
                }
            },
            None => {},
        }
        i = i + 1;
    }
    assert(regions@.take(regions.len() as int) =~= regions@);
}

/// The region patches of a page: for each field group whose pair has an
/// edited text, a `field-row` patch keyed by the pair id; then for each
/// paragraph region and each list item region with an edited text, a patch
/// keyed by the region id. Snapshots are carried as JSON text (`null` where
/// none is stored), the paragraph ones from the region snapshots of the
/// state.
pub fn collect_persistable_region_patches(
    sources: &PageRegionSources,
    page_index: u16,
    state: &GlobalPatchState,
) -> (patches: Vec<PersistableRegionPatch>)
    requires
        state.wf(),
    ensures
        patches@.map_values(|q: PersistableRegionPatch| patch_desc(q)) == row_patches(
            sources.field_rows@,
            page_index,
            state.field_group_texts.view_map(),
            state.field_group_snapshots.view_map(),
        ) + region_patches(
            sources.paragraph_regions@,
            paragraph_region_source(),
            page_index,
            state.paragraph_texts.view_map(),
            state.paragraph_snapshots.view_map(),
        ) + region_patches(
            sources.list_item_regions@,
            list_item_region_source(),
            page_index,
            state.paragraph_texts.view_map(),
            state.paragraph_snapshots.view_map(),
        ),
        forall|i: int| 0 <= i < patches@.len() ==> is_bare(#[trigger] patches@[i]),
{
    let ghost ft = state.field_group_texts.view_map();
    let ghost fs = state.field_group_snapshots.view_map();
    let mut patches: Vec<PersistableRegionPatch> = Vec::new();
    let rows = &sources.field_rows;
    let mut r: usize = 0;
    while r < rows.len()
        invariant
            state.wf(),
            ft == state.field_group_texts.view_map(),
            fs == state.field_group_snapshots.view_map(),
            r <= rows.len(),
            patches@.map_values(|q: PersistableRegionPatch| patch_desc(q)) == row_patches(
                rows@.take(r as int),
                page_index,
                ft,
                fs,
            ),
            forall|k: int| 0 <= k < patches@.len() ==> is_bare(#[trigger] patches@[k]),
        decreases rows.len() - r,
    {
        let row = &rows[r];
        assert(rows@.take(r + 1).drop_last() =~= rows@.take(r as int));
        let ghost row_start = patches@.map_values(|q: PersistableRegionPatch| patch_desc(q));
        let mut g: usize = 0;
        while g < row.groups.len()
            invariant
                state.wf(),
                ft == state.field_group_texts.view_map(),
                fs == state.field_group_snapshots.view_map(),
                g <= row.groups.len(),
                patches@.map_values(|q: PersistableRegionPatch| patch_desc(q)) == row_start
                    + group_patches(row.id@, row.groups@.take(g as int), page_index, ft, fs),
                forall|k: int| 0 <= k < patches@.len() ==> is_bare(#[trigger] patches@[k]),
            decreases row.groups.len() - g,
        {
            let group = &row.groups[g];
            assert(row.groups@.take(g + 1).drop_last() =~= row.groups@.take(g as int));
            let ghost before = patches@;
            match state.field_group_texts.get(group.pair_id.as_str()) {
                Some(new_text) => {
                    proof {
                        reveal_strlit("field-row");
                        assert("field-row"@ =~= field_row_source());
                    }
                    let snapshot = snapshot_text(
                        &state.field_group_snapshots,
                        group.pair_id.as_str(),
                    );
                    let p = bare_patch(
                        group.pair_id.clone(),
                        page_index,
                        row.id.clone(),
                        concat_str(group.key_text.as_str(), group.value_text.as_str()),
                        new_text.clone(),
                        to_owned_string("field-row"),
                        snapshot,
                        Some(group.id.clone()),
                        clone_indices(&group.object_indices),
                    );
                    let ghost added = p;
                    patches.push(p);
                    proof {
                        lemma_descs_push(before, added);
                    }
                },
                None => {},
            }
            g = g + 1;
        }
        assert(row.groups@.take(row.groups.len() as int) =~= row.groups@);
        r = r + 1;
    }
    assert(rows@.take(rows.len() as int) =~= rows@);
    proof {
        reveal_strlit("paragraph-region");
        reveal_strlit("list-item-region");
        assert("paragraph-region"@ =~= paragraph_region_source());
        assert("list-item-region"@ =~= list_item_region_source());
    }
    push_region_patches(
        &mut patches,
        &sources.paragraph_regions,
        "paragraph-region",
        page_index,
        &state.paragraph_texts,
        &state.paragraph_snapshots,
    );
    push_region_patches(
        &mut patches,
        &sources.list_item_regions,
        "list-item-region",
        page_index,
        &state.paragraph_texts,
        &state.paragraph_snapshots,
    );
    patches
}

} // verus!

verus! {

// ---------------------------------------------------------------------------
// The patch of an edited paragraph
// ---------------------------------------------------------------------------

/// The list marker of an edited paragraph: its text and the object indices
/// of its runs.
pub struct SceneMarkerSource {
    pub text: String,
    pub run_object_indices: Vec<Vec<usize>>,
}

/// The kind name of an edited paragraph.
pub open spec fn paragraph_kind_name(is_list_item: bool) -> Seq<char> {
    if is_list_item {
        seq!['l', 'i', 's', 't', '-', 'i', 't', 'e', 'm']
    } else {
        seq!['p', 'a', 'r', 'a', 'g', 'r', 'a', 'p', 'h']
    }
}

/// The indices of the marker runs together with `target_indices`.
pub open spec fn marker_and_target_indices(marker_runs: Seq<Vec<usize>>, target_indices: Seq<usize>) -> Set<
    usize,
> {
    Set::new(
        |x: usize|
            target_indices.contains(x) || exists|r: int|
                0 <= r < marker_runs.len() && #[trigger] marker_runs[r]@.contains(x),
    )
}

/// The patch that saves the new text of an edited paragraph or list item:
/// keyed `<kind>:<target id>`, with the snapshot JSON text, the paragraph's
/// object indices and, for a list item, the marker text and the indices of
/// marker and paragraph together (sorted, without duplicates).
pub fn build_rich_patch(
    target_id: &str,
    page_index: u16,
    original_text: String,
    new_text: String,
    marker: Option<&SceneMarkerSource>,
    target_indices: Vec<usize>,
    snapshot_json: String,
    align: LayoutAlignment,
) -> (patch: PersistableRegionPatch)
    ensures
        ({
            let is_list_item = marker is Some;
            &&& patch.patch_key@ == paragraph_kind_name(is_list_item) + seq![':'] + target_id@
            &&& patch.region_id@ == target_id@
            &&& patch.page_index == page_index
            &&& patch.original_text == original_text
            &&& patch.new_text == new_text
            &&& patch.source@ == if is_list_item {
                list_item_region_source()
            } else {
                paragraph_region_source()
            }
            &&& opt_view(patch.marker_text) == match marker {
                Some(m) => Some(m.text@),
                None => None,
            }
            &&& patch.new_marker_text is None
            &&& patch.snapshot == Some(snapshot_json)
            &&& opt_view(patch.kind) == Some(paragraph_kind_name(is_list_item))
            &&& patch.pair_id is None
            &&& patch.group_id is None
            &&& patch.field_kind is None
            &&& patch.field_name is None
            &&& patch.original_value_text is None
            &&& patch.new_value_text is None
            &&& patch.target_indices@ == target_indices@
            &&& match marker {
                Some(m) => strictly_increasing(patch.full_target_indices@)
                    && patch.full_target_indices@.to_set() == marker_and_target_indices(
                    m.run_object_indices@,
                    target_indices@,
                ),
                None => patch.full_target_indices@.len() == 0,
            }
            &&& patch.align == Some(align)
            &&& patch.semantic_ops@.len() == 0
        }),
{
    let is_list_item = marker.is_some();
    proof {
        reveal_strlit("list-item");
        reveal_strlit("paragraph");
        reveal_strlit("list-item-region");
        reveal_strlit("paragraph-region");
        reveal_strlit(":");
    }
    let kind = if is_list_item {
        to_owned_string("list-item")
    } else {
        to_owned_string("paragraph")
    };
    assert(kind@ =~= paragraph_kind_name(is_list_item));
    let mut patch_key = kind.clone();
    string_push(&mut patch_key, ':');
    crate::text_format::push_str(&mut patch_key, target_id);
    let source = if is_list_item {
        to_owned_string("list-item-region")
    } else {
        to_owned_string("paragraph-region")
    };
    let (marker_text, full_target_indices) = match marker {
        Some(m) => {
            let mut full = collect_layout_run_object_indices(&m.run_object_indices);
            let ghost marker_set = full@.to_set();
            let mut i: usize = 0;
            while i < target_indices.len()
                invariant
                    i <= target_indices.len(),
                    strictly_increasing(full@),
                    full@.to_set() == marker_set.union(target_indices@.take(i as int).to_set()),
                decreases target_indices.len() - i,
            {
                insert_sorted_unique(&mut full, target_indices[i]);
                assert(target_indices@.take(i + 1).to_set() =~= target_indices@.take(
                    i as int,
                ).to_set().insert(target_indices@[i as int])) by {
                    assert(target_indices@.take(i + 1) =~= target_indices@.take(i as int).push(
                        target_indices@[i as int],
                    ));
                    target_indices@.take(i as int).lemma_push_to_set_commute(
                        target_indices@[i as int],
                    );
                }
                i = i + 1;
            }
            assert(target_indices@.take(target_indices.len() as int) =~= target_indices@);
            assert(full@.to_set() =~= marker_and_target_indices(
                m.run_object_indices@,
                target_indices@,
            )) by {
                assert forall|x: usize| full@.to_set().contains(x) <==> marker_and_target_indices(
                    m.run_object_indices@,
                    target_indices@,
                ).contains(x) by {}
            }
            (Some(m.text.clone()), full)
        },
        None => (None, Vec::new()),
    };
    PersistableRegionPatch {
        patch_key,
        page_index,
        region_id: to_owned_string(target_id),
        original_text,
        new_text,
        source,
        marker_text,
        new_marker_text: None,
        snapshot: Some(snapshot_json),
        kind: Some(kind),
        pair_id: None,
        group_id: None,
        field_kind: None,
        field_name: None,
        original_value_text: None,
        new_value_text: None,
        target_indices,
        full_target_indices,
        align: Some(align),
        semantic_ops: Vec::new(),
    }
}

} // verus!
