//! The store of edits waiting to be saved: for each edited region its new
//! text, the patch that produced it and its semantic operations, plus the
//! history of patch commands that undo and redo walk.

use vstd::prelude::*;
use crate::chars::str_eq;
use crate::editor_state::{LayoutAlignment, ListMarkerKind};
use crate::keyed_map::KeyedMap;

verus! {

/// A semantic change that a patch carries besides its text.
pub enum PersistableSemanticOperation {
    SetListKind { block_id: String, list_kind: ListMarkerKind, marker_text: Option<String> },
}

pub fn clone_opt_string(o: &Option<String>) -> (r: Option<String>)
    ensures
        r == *o,
{
    match o {
        Some(s) => Some(s.clone()),
        None => None,
    }
}

impl PersistableSemanticOperation {
    pub fn duplicate(&self) -> (op: Self)
        ensures
            op == *self,
    {
        match self {
            PersistableSemanticOperation::SetListKind { block_id, list_kind, marker_text } => {
                PersistableSemanticOperation::SetListKind {
                    block_id: block_id.clone(),
                    list_kind: *list_kind,
                    marker_text: clone_opt_string(marker_text),
                }
            },
        }
    }
}

pub fn clone_ops(ops: &Vec<PersistableSemanticOperation>) -> (out: Vec<PersistableSemanticOperation>)
    ensures
        out@ == ops@,
{
    let mut out: Vec<PersistableSemanticOperation> = Vec::new();
    let mut i: usize = 0;
    while i < ops.len()
        invariant
            i <= ops.len(),
            out@ == ops@.take(i as int),
        decreases ops.len() - i,
    {
        out.push(ops[i].duplicate());
        assert(ops@.take(i as int).push(ops@[i as int]) =~= ops@.take(i + 1));
        i = i + 1;
    }
    assert(ops@.take(ops.len() as int) =~= ops@);
    out
}

pub fn clone_indices(v: &Vec<usize>) -> (out: Vec<usize>)
    ensures
        out@ == v@,
{
    let mut out: Vec<usize> = Vec::new();
    let mut i: usize = 0;
    while i < v.len()
        invariant
            i <= v.len(),
            out@ == v@.take(i as int),
        decreases v.len() - i,
    {
        out.push(v[i]);
        assert(v@.take(i as int).push(v@[i as int]) =~= v@.take(i + 1));
        i = i + 1;
    }
    assert(v@.take(v.len() as int) =~= v@);
    out
}

/// An edit of one region, as it is saved. `snapshot` is the JSON text of the
/// layout snapshot that came with the edit, if any.
pub struct PersistableRegionPatch {
    pub patch_key: String,
    pub page_index: u16,
    pub region_id: String,
    pub original_text: String,
    pub new_text: String,
    /// `paragraph-region`, `list-item-region`, `field-group` or `field-row`.
    pub source: String,
    pub marker_text: Option<String>,
    pub new_marker_text: Option<String>,
    pub snapshot: Option<String>,
    pub kind: Option<String>,
    pub pair_id: Option<String>,
    pub group_id: Option<String>,
    pub field_kind: Option<String>,
    pub field_name: Option<String>,
    pub original_value_text: Option<String>,
    pub new_value_text: Option<String>,
    pub target_indices: Vec<usize>,
    pub full_target_indices: Vec<usize>,
    pub align: Option<LayoutAlignment>,
    pub semantic_ops: Vec<PersistableSemanticOperation>,
}

/// Two patches hold the same values.
pub open spec fn same_patch(a: PersistableRegionPatch, b: PersistableRegionPatch) -> bool {
    &&& a.patch_key == b.patch_key
    &&& a.page_index == b.page_index
    &&& a.region_id == b.region_id
    &&& a.original_text == b.original_text
    &&& a.new_text == b.new_text
    &&& a.source == b.source
    &&& a.marker_text == b.marker_text
    &&& a.new_marker_text == b.new_marker_text
    &&& a.snapshot == b.snapshot
    &&& a.kind == b.kind
    &&& a.pair_id == b.pair_id
    &&& a.group_id == b.group_id
    &&& a.field_kind == b.field_kind
    &&& a.field_name == b.field_name
    &&& a.original_value_text == b.original_value_text
    &&& a.new_value_text == b.new_value_text
    &&& a.target_indices@ == b.target_indices@
    &&& a.full_target_indices@ == b.full_target_indices@
    &&& a.align == b.align
    &&& a.semantic_ops@ == b.semantic_ops@
}

impl PersistableRegionPatch {
    pub fn duplicate(&self) -> (p: Self)
        ensures
            same_patch(p, *self),
    {
        PersistableRegionPatch {
            patch_key: self.patch_key.clone(),
            page_index: self.page_index,
            region_id: self.region_id.clone(),
            original_text: self.original_text.clone(),
            new_text: self.new_text.clone(),
            source: self.source.clone(),
            marker_text: clone_opt_string(&self.marker_text),
            new_marker_text: clone_opt_string(&self.new_marker_text),
            snapshot: clone_opt_string(&self.snapshot),
            kind: clone_opt_string(&self.kind),
            pair_id: clone_opt_string(&self.pair_id),
            group_id: clone_opt_string(&self.group_id),
            field_kind: clone_opt_string(&self.field_kind),
            field_name: clone_opt_string(&self.field_name),
            original_value_text: clone_opt_string(&self.original_value_text),
            new_value_text: clone_opt_string(&self.new_value_text),
            target_indices: clone_indices(&self.target_indices),
            full_target_indices: clone_indices(&self.full_target_indices),
            align: self.align,
            semantic_ops: clone_ops(&self.semantic_ops),
        }
    }
}

impl Default for PersistableRegionPatch {
    /// A patch with empty texts, no optional values and no indices.
    fn default() -> (p: Self)
        ensures
            p.patch_key@.len() == 0,
            p.page_index == 0,
            p.region_id@.len() == 0,
            p.original_text@.len() == 0,
            p.new_text@.len() == 0,
            p.source@.len() == 0,
            p.marker_text is None,
            p.new_marker_text is None,
            p.snapshot is None,
            p.kind is None,
            p.pair_id is None,
            p.group_id is None,
            p.field_kind is None,
            p.field_name is None,
            p.original_value_text is None,
            p.new_value_text is None,
            p.target_indices@.len() == 0,
            p.full_target_indices@.len() == 0,
            p.align is None,
            p.semantic_ops@.len() == 0,
    {
        PersistableRegionPatch {
            patch_key: String::new(),
            page_index: 0,
            region_id: String::new(),
            original_text: String::new(),
            new_text: String::new(),
            source: String::new(),
            marker_text: None,
            new_marker_text: None,
            snapshot: None,
            kind: None,
            pair_id: None,
            group_id: None,
            field_kind: None,
            field_name: None,
            original_value_text: None,
            new_value_text: None,
            target_indices: Vec::new(),
            full_target_indices: Vec::new(),
            align: None,
            semantic_ops: Vec::new(),
        }
    }
}

pub open spec fn paragraph_region_source() -> Seq<char> {
    seq!['p', 'a', 'r', 'a', 'g', 'r', 'a', 'p', 'h', '-', 'r', 'e', 'g', 'i', 'o', 'n']
}

pub open spec fn list_item_region_source() -> Seq<char> {
    seq!['l', 'i', 's', 't', '-', 'i', 't', 'e', 'm', '-', 'r', 'e', 'g', 'i', 'o', 'n']
}

pub open spec fn field_group_source() -> Seq<char> {
    seq!['f', 'i', 'e', 'l', 'd', '-', 'g', 'r', 'o', 'u', 'p']
}

pub open spec fn field_row_source() -> Seq<char> {
    seq!['f', 'i', 'e', 'l', 'd', '-', 'r', 'o', 'w']
}

pub open spec fn is_paragraph_source(s: Seq<char>) -> bool {
    s == paragraph_region_source() || s == list_item_region_source()
}

pub open spec fn is_field_source(s: Seq<char>) -> bool {
    s == field_group_source() || s == field_row_source()
}

fn paragraph_source(s: &str) -> (b: bool)
    ensures
        b == is_paragraph_source(s@),
{
    proof {
        reveal_strlit("paragraph-region");
        reveal_strlit("list-item-region");
        assert("paragraph-region"@ =~= paragraph_region_source());
        assert("list-item-region"@ =~= list_item_region_source());
    }
    str_eq(s, "paragraph-region") || str_eq(s, "list-item-region")
}

fn field_source(s: &str) -> (b: bool)
    ensures
        b == is_field_source(s@),
{
    proof {
        reveal_strlit("field-group");
        reveal_strlit("field-row");
        assert("field-group"@ =~= field_group_source());
        assert("field-row"@ =~= field_row_source());
    }
    str_eq(s, "field-group") || str_eq(s, "field-row")
}

fn field_row(s: &str) -> (b: bool)
    ensures
        b == (s@ == field_row_source()),
{
    proof {
        reveal_strlit("field-row");
        assert("field-row"@ =~= field_row_source());
    }
    str_eq(s, "field-row")
}

/// The patch state of a document.
pub struct GlobalPatchState {
    pub paragraph_texts: KeyedMap<String>,
    pub paragraph_patches: KeyedMap<PersistableRegionPatch>,
    pub semantic_ops: KeyedMap<Vec<PersistableSemanticOperation>>,
    pub field_group_texts: KeyedMap<String>,
    pub field_group_snapshots: KeyedMap<String>,
    pub field_group_patches: KeyedMap<PersistableRegionPatch>,
    pub patch_revision: u64,
    pub patched_run_texts: KeyedMap<String>,
    pub patched_texts: KeyedMap<String>,
    /// JSON text of the region snapshot recorded with each paragraph patch.
    pub paragraph_snapshots: KeyedMap<String>,
    /// JSON text of the replacement target recorded with each paragraph patch.
    pub paragraph_replacement_targets: KeyedMap<String>,
    /// JSON text of the laid-out paragraph kept for each patch key.
    pub paragraph_layout_snapshots: KeyedMap<String>,
}

impl GlobalPatchState {
    pub open spec fn wf(&self) -> bool {
        &&& self.paragraph_texts.wf()
        &&& self.paragraph_patches.wf()
        &&& self.semantic_ops.wf()
        &&& self.field_group_texts.wf()
        &&& self.field_group_snapshots.wf()
        &&& self.field_group_patches.wf()
        &&& self.patched_run_texts.wf()
        &&& self.patched_texts.wf()
        &&& self.paragraph_snapshots.wf()
        &&& self.paragraph_replacement_targets.wf()
        &&& self.paragraph_layout_snapshots.wf()
    }

    pub fn new() -> (s: Self)
        ensures
            s.wf(),
            s.paragraph_texts.view_map() == Map::<Seq<char>, String>::empty(),
            s.paragraph_patches.view_map() == Map::<Seq<char>, PersistableRegionPatch>::empty(),
            s.semantic_ops.view_map() == Map::<
                Seq<char>,
                Vec<PersistableSemanticOperation>,
            >::empty(),
            s.field_group_texts.view_map() == Map::<Seq<char>, String>::empty(),
            s.field_group_snapshots.view_map() == Map::<Seq<char>, String>::empty(),
            s.field_group_patches.view_map() == Map::<Seq<char>, PersistableRegionPatch>::empty(),
            s.patch_revision == 0,
            s.patched_run_texts.view_map() == Map::<Seq<char>, String>::empty(),
            s.patched_texts.view_map() == Map::<Seq<char>, String>::empty(),
            s.paragraph_snapshots.view_map() == Map::<Seq<char>, String>::empty(),
            s.paragraph_replacement_targets.view_map() == Map::<Seq<char>, String>::empty(),
            s.paragraph_layout_snapshots.view_map() == Map::<Seq<char>, String>::empty(),
    {
        GlobalPatchState {
            paragraph_texts: KeyedMap::new(),
            paragraph_patches: KeyedMap::new(),
            semantic_ops: KeyedMap::new(),
            field_group_texts: KeyedMap::new(),
            field_group_snapshots: KeyedMap::new(),
            field_group_patches: KeyedMap::new(),
            patch_revision: 0,
            patched_run_texts: KeyedMap::new(),
            patched_texts: KeyedMap::new(),
            paragraph_snapshots: KeyedMap::new(),
            paragraph_replacement_targets: KeyedMap::new(),
            paragraph_layout_snapshots: KeyedMap::new(),
        }
    }

    /// The laid-out paragraph kept for `key`, as JSON text.
    pub fn find_paragraph_snapshot(&self, key: &str) -> (found: Option<&String>)
        requires
            self.wf(),
        ensures
            match found {
                Some(x) => self.paragraph_layout_snapshots.view_map().contains_key(key@) && *x
                    == self.paragraph_layout_snapshots.view_map()[key@],
                None => !self.paragraph_layout_snapshots.view_map().contains_key(key@),
            },
    {
        self.paragraph_layout_snapshots.get(key)
    }
}

pub fn bump_patch_revision(state: &mut GlobalPatchState)
    ensures
        final(state).patch_revision == if old(state).patch_revision == u64::MAX {
            u64::MAX
        } else {
            (old(state).patch_revision + 1) as u64
        },
        final(state).paragraph_texts == old(state).paragraph_texts,
        final(state).paragraph_patches == old(state).paragraph_patches,
        final(state).semantic_ops == old(state).semantic_ops,
        final(state).field_group_texts == old(state).field_group_texts,
        final(state).field_group_snapshots == old(state).field_group_snapshots,
        final(state).field_group_patches == old(state).field_group_patches,
{
    state.patch_revision = state.patch_revision.saturating_add(1);
}

/// Whether any edit is pending.
pub fn has_visible_patches(state: &GlobalPatchState) -> (b: bool)
    ensures
        b == !(state.paragraph_texts.view_map() == Map::<Seq<char>, String>::empty()
            && state.paragraph_snapshots.view_map() == Map::<Seq<char>, String>::empty()
            && state.paragraph_patches.view_map() == Map::<
            Seq<char>,
            PersistableRegionPatch,
        >::empty() && state.semantic_ops.view_map() == Map::<
            Seq<char>,
            Vec<PersistableSemanticOperation>,
        >::empty() && state.field_group_texts.view_map() == Map::<Seq<char>, String>::empty()
            && state.field_group_snapshots.view_map() == Map::<Seq<char>, String>::empty()
            && state.field_group_patches.view_map() == Map::<
            Seq<char>,
            PersistableRegionPatch,
        >::empty()),
{
    !state.paragraph_texts.is_empty() || !state.paragraph_snapshots.is_empty()
        || !state.paragraph_patches.is_empty()
        || !state.semantic_ops.is_empty() || !state.field_group_texts.is_empty()
        || !state.field_group_snapshots.is_empty() || !state.field_group_patches.is_empty()
}

/// `new` is `old` with the value at `k` set (to something the caller states).
pub open spec fn set_at<V>(new: Map<Seq<char>, V>, old: Map<Seq<char>, V>, k: Seq<char>) -> bool {
    new.remove(k) == old.remove(k) && new.contains_key(k)
}

/// Records `patch` in the maps of its kind of region (keyed by region id).
/// For a paragraph or list item, `region_snapshot` and `replacement_target`
/// are the region snapshot and the `replacementTarget` member that the caller
/// read from the patch's snapshot (each `None` when absent or unreadable);
/// they are recorded when present.
pub fn apply_patch_maps(
    state: &mut GlobalPatchState,
    patch: &PersistableRegionPatch,
    region_snapshot: Option<String>,
    replacement_target: Option<String>,
)
    requires
        old(state).wf(),
    ensures
        final(state).wf(),
        final(state).patch_revision == old(state).patch_revision,
        final(state).paragraph_layout_snapshots == old(state).paragraph_layout_snapshots,
        final(state).patched_texts == old(state).patched_texts,
        final(state).patched_run_texts == old(state).patched_run_texts,
        is_paragraph_source(patch.source@) ==> {
            let k = patch.region_id@;
            &&& final(state).paragraph_texts.view_map() == old(
                state,
            ).paragraph_texts.view_map().insert(k, patch.new_text)
            &&& set_at(
                final(state).paragraph_patches.view_map(),
                old(state).paragraph_patches.view_map(),
                k,
            )
            &&& same_patch(final(state).paragraph_patches.view_map()[k], *patch)
            &&& if patch.semantic_ops@.len() == 0 {
                final(state).semantic_ops.view_map() == old(state).semantic_ops.view_map().remove(
                    k,
                )
            } else {
                &&& set_at(
                    final(state).semantic_ops.view_map(),
                    old(state).semantic_ops.view_map(),
                    k,
                )
                &&& final(state).semantic_ops.view_map()[k]@ == patch.semantic_ops@
            }
            &&& final(state).paragraph_snapshots.view_map() == match region_snapshot {
                Some(t) => old(state).paragraph_snapshots.view_map().insert(k, t),
                None => old(state).paragraph_snapshots.view_map(),
            }
            &&& final(state).paragraph_replacement_targets.view_map() == match replacement_target {
                Some(t) => old(state).paragraph_replacement_targets.view_map().insert(k, t),
                None => old(state).paragraph_replacement_targets.view_map(),
            }
            &&& final(state).field_group_texts == old(state).field_group_texts
            &&& final(state).field_group_snapshots == old(state).field_group_snapshots
            &&& final(state).field_group_patches == old(state).field_group_patches
        },
        is_field_source(patch.source@) ==> {
            let k = patch.region_id@;
            &&& final(state).field_group_texts.view_map() == old(
                state,
            ).field_group_texts.view_map().insert(k, patch.new_text)
            &&& final(state).field_group_snapshots.view_map() == match patch.snapshot {
                Some(s) => old(state).field_group_snapshots.view_map().insert(k, s),
                None => old(state).field_group_snapshots.view_map(),
            }
            &&& set_at(
                final(state).field_group_patches.view_map(),
                old(state).field_group_patches.view_map(),
                k,
            )
            &&& same_patch(final(state).field_group_patches.view_map()[k], *patch)
            &&& final(state).paragraph_texts == old(state).paragraph_texts
            &&& final(state).paragraph_patches == old(state).paragraph_patches
            &&& final(state).semantic_ops == old(state).semantic_ops
            &&& final(state).paragraph_snapshots == old(state).paragraph_snapshots
            &&& final(state).paragraph_replacement_targets == old(
                state,
            ).paragraph_replacement_targets
        },
        !is_paragraph_source(patch.source@) && !is_field_source(patch.source@) ==> *final(state)
            == *old(state),
{
    let k = patch.region_id.as_str();
    if paragraph_source(patch.source.as_str()) {
        state.paragraph_texts.insert(patch.region_id.clone(), patch.new_text.clone());
        let ghost before = state.paragraph_patches.view_map();
        let dup = patch.duplicate();
        let ghost d = dup;
        state.paragraph_patches.insert(patch.region_id.clone(), dup);
        assert(state.paragraph_patches.view_map().remove(k@) =~= before.remove(k@));
        if patch.semantic_ops.len() == 0 {
            let _ = state.semantic_ops.remove(k);
        } else {
            let ghost before_ops = state.semantic_ops.view_map();
            state.semantic_ops.insert(patch.region_id.clone(), clone_ops(&patch.semantic_ops));
            assert(state.semantic_ops.view_map().remove(k@) =~= before_ops.remove(k@));
        }
        match region_snapshot {
            Some(t) => {
                state.paragraph_snapshots.insert(patch.region_id.clone(), t);
            },
            None => {},
        }
        match replacement_target {
            Some(t) => {
                state.paragraph_replacement_targets.insert(patch.region_id.clone(), t);
            },
            None => {},
        }
    } else if field_source(patch.source.as_str()) {
        state.field_group_texts.insert(patch.region_id.clone(), patch.new_text.clone());
        match &patch.snapshot {
            Some(snap) => {
                state.field_group_snapshots.insert(patch.region_id.clone(), snap.clone());
            },
            None => {},
        }
        let ghost before = state.field_group_patches.view_map();
        state.field_group_patches.insert(patch.region_id.clone(), patch.duplicate());
        assert(state.field_group_patches.view_map().remove(k@) =~= before.remove(k@));
    }
}

/// Drops the entries of the patch's region from the maps of its kind.
pub fn remove_patch_maps(state: &mut GlobalPatchState, patch: &PersistableRegionPatch)
    requires
        old(state).wf(),
    ensures
        final(state).wf(),
        final(state).patch_revision == old(state).patch_revision,
        final(state).paragraph_layout_snapshots == old(state).paragraph_layout_snapshots,
        is_paragraph_source(patch.source@) ==> {
            let k = patch.region_id@;
            &&& final(state).paragraph_texts.view_map() == old(
                state,
            ).paragraph_texts.view_map().remove(k)
            &&& final(state).paragraph_patches.view_map() == old(
                state,
            ).paragraph_patches.view_map().remove(k)
            &&& final(state).semantic_ops.view_map() == old(state).semantic_ops.view_map().remove(
                k,
            )
            &&& final(state).paragraph_snapshots.view_map() == old(
                state,
            ).paragraph_snapshots.view_map().remove(k)
            &&& final(state).paragraph_replacement_targets.view_map() == old(
                state,
            ).paragraph_replacement_targets.view_map().remove(k)
            &&& final(state).field_group_texts == old(state).field_group_texts
            &&& final(state).field_group_snapshots == old(state).field_group_snapshots
            &&& final(state).field_group_patches == old(state).field_group_patches
        },
        is_field_source(patch.source@) ==> {
            let k = patch.region_id@;
            &&& final(state).field_group_texts.view_map() == old(
                state,
            ).field_group_texts.view_map().remove(k)
            &&& final(state).field_group_snapshots.view_map() == old(
                state,
            ).field_group_snapshots.view_map().remove(k)
            &&& final(state).field_group_patches.view_map() == old(
                state,
            ).field_group_patches.view_map().remove(k)
            &&& final(state).paragraph_texts == old(state).paragraph_texts
            &&& final(state).paragraph_patches == old(state).paragraph_patches
            &&& final(state).semantic_ops == old(state).semantic_ops
            &&& final(state).paragraph_snapshots == old(state).paragraph_snapshots
            &&& final(state).paragraph_replacement_targets == old(
                state,
            ).paragraph_replacement_targets
        },
        !is_paragraph_source(patch.source@) && !is_field_source(patch.source@) ==> *final(state)
            == *old(state),
{
    let k = patch.region_id.as_str();
    if paragraph_source(patch.source.as_str()) {
        let _ = state.paragraph_texts.remove(k);
        let _ = state.paragraph_patches.remove(k);
        let _ = state.semantic_ops.remove(k);
        let _ = state.paragraph_snapshots.remove(k);
        let _ = state.paragraph_replacement_targets.remove(k);
    } else if field_source(patch.source.as_str()) {
        let _ = state.field_group_texts.remove(k);
        let _ = state.field_group_snapshots.remove(k);
        let _ = state.field_group_patches.remove(k);
    }
}

/// The operations of all entries, entry by entry.
pub open spec fn flatten_ops(entries: Seq<(String, Vec<PersistableSemanticOperation>)>) -> Seq<
    PersistableSemanticOperation,
>
    decreases entries.len(),
{
    if entries.len() == 0 {
        Seq::empty()
    } else {
        flatten_ops(entries.drop_last()) + entries.last().1@
    }
}

/// All pending semantic operations.
pub fn collect_semantic_ops(state: &GlobalPatchState) -> (ops: Vec<PersistableSemanticOperation>)
    ensures
        ops@ == flatten_ops(state.semantic_ops.entries@),
{
    let entries = &state.semantic_ops.entries;
    let mut ops: Vec<PersistableSemanticOperation> = Vec::new();
    let mut i: usize = 0;
    while i < entries.len()
        invariant
            i <= entries.len(),
            ops@ == flatten_ops(entries@.take(i as int)),
        decreases entries.len() - i,
    {
        let list = &entries[i].1;
        let ghost start = ops@;
        let mut j: usize = 0;
        while j < list.len()
            invariant
                j <= list.len(),
                ops@ == start + list@.take(j as int),
            decreases list.len() - j,
        {
            ops.push(list[j].duplicate());
            assert(list@.take(j as int).push(list@[j as int]) =~= list@.take(j + 1));
            j = j + 1;
        }
        assert(list@.take(list.len() as int) =~= list@);
        assert(entries@.take(i + 1).drop_last() =~= entries@.take(i as int));
        i = i + 1;
    }
    assert(entries@.take(entries.len() as int) =~= entries@);
    ops
}

/// The patch that undoes `patch`: the patch recorded for its region with the
/// text currently stored for it, when both are recorded.
pub fn capture_existing_patch(state: &GlobalPatchState, patch: &PersistableRegionPatch) -> (r:
    Option<PersistableRegionPatch>)
    requires
        state.wf(),
    ensures
        ({
            let k = patch.region_id@;
            if is_paragraph_source(patch.source@) {
                match r {
                    Some(p) => state.paragraph_patches.view_map().contains_key(k)
                        && state.paragraph_texts.view_map().contains_key(k) && same_patch(
                        p,
                        PersistableRegionPatch {
                            new_text: state.paragraph_texts.view_map()[k],
                            ..state.paragraph_patches.view_map()[k]
                        },
                    ),
                    None => !(state.paragraph_patches.view_map().contains_key(k)
                        && state.paragraph_texts.view_map().contains_key(k)),
                }
            } else if is_field_source(patch.source@) {
                match r {
                    Some(p) => state.field_group_patches.view_map().contains_key(k)
                        && state.field_group_texts.view_map().contains_key(k) && same_patch(
                        p,
                        PersistableRegionPatch {
                            new_text: state.field_group_texts.view_map()[k],
                            ..state.field_group_patches.view_map()[k]
                        },
                    ),
                    None => !(state.field_group_patches.view_map().contains_key(k)
                        && state.field_group_texts.view_map().contains_key(k)),
                }
            } else {
                r is None
            }
        }),
{
    let k = patch.region_id.as_str();
    if paragraph_source(patch.source.as_str()) {
        let existing = match state.paragraph_patches.get(k) {
            Some(p) => p,
            None => return None,
        };
        let text = match state.paragraph_texts.get(k) {
            Some(t) => t,
            None => return None,
        };
        let mut rollback = existing.duplicate();
        rollback.new_text = text.clone();
        return Some(rollback);
    }
    if field_source(patch.source.as_str()) {
        let existing = match state.field_group_patches.get(k) {
            Some(p) => p,
            None => return None,
        };
        let text = match state.field_group_texts.get(k) {
            Some(t) => t,
            None => return None,
        };
        let mut rollback = existing.duplicate();
        rollback.new_text = text.clone();
        return Some(rollback);
    }
    None
}

/// The texts a patch command reads and writes: paragraph texts, field group
/// texts and field group snapshots.
pub open spec fn texts_after_apply(
    paragraph_texts: Map<Seq<char>, String>,
    field_texts: Map<Seq<char>, String>,
    field_snapshots: Map<Seq<char>, String>,
    patch: PersistableRegionPatch,
) -> (Map<Seq<char>, String>, Map<Seq<char>, String>, Map<Seq<char>, String>) {
    let k = patch.patch_key@;
    if patch.source@ == field_row_source() {
        (
            paragraph_texts,
            field_texts.insert(k, patch.new_text),
            match patch.snapshot {
                Some(s) => field_snapshots.insert(k, s),
                None => field_snapshots,
            },
        )
    } else {
        (paragraph_texts.insert(k, patch.new_text), field_texts, field_snapshots)
    }
}

pub open spec fn text_maps(state: GlobalPatchState) -> (
    Map<Seq<char>, String>,
    Map<Seq<char>, String>,
    Map<Seq<char>, String>,
) {
    (
        state.paragraph_texts.view_map(),
        state.field_group_texts.view_map(),
        state.field_group_snapshots.view_map(),
    )
}

/// Everything of the state but the three text maps is as it was: the
/// recorded patches, the semantic operations, the revision and the patched
/// texts.
pub open spec fn keeps_other_state(before: GlobalPatchState, after: GlobalPatchState) -> bool {
    &&& keeps_patches_and_snapshots(before, after)
    &&& after.paragraph_layout_snapshots == before.paragraph_layout_snapshots
}

/// Everything of the state but the three text maps and the layout snapshots
/// is as it was.
pub open spec fn keeps_patches_and_snapshots(before: GlobalPatchState, after: GlobalPatchState) -> bool {
    &&& after.paragraph_patches == before.paragraph_patches
    &&& after.field_group_patches == before.field_group_patches
    &&& after.semantic_ops == before.semantic_ops
    &&& after.patch_revision == before.patch_revision
    &&& after.patched_run_texts == before.patched_run_texts
    &&& after.patched_texts == before.patched_texts
    &&& after.paragraph_snapshots == before.paragraph_snapshots
    &&& after.paragraph_replacement_targets == before.paragraph_replacement_targets
}

/// The layout snapshots after undoing `cmd`: a command that replaced no patch
/// of a paragraph drops the layout snapshot of its key.
pub open spec fn layout_snapshots_after_undo(
    snapshots: Map<Seq<char>, String>,
    cmd: PatchCommand,
) -> Map<Seq<char>, String> {
    if cmd.old_patch is None && cmd.new_patch.source@ != field_row_source() {
        snapshots.remove(cmd.patch_key@)
    } else {
        snapshots
    }
}

/// Stores the text of a patch under its patch key: field rows in the field
/// group maps (with the snapshot, if any), everything else in the paragraph
/// texts.
pub fn apply_patch(state: &mut GlobalPatchState, patch: &PersistableRegionPatch)
    requires
        old(state).wf(),
    ensures
        final(state).wf(),
        text_maps(*final(state)) == texts_after_apply(
            old(state).paragraph_texts.view_map(),
            old(state).field_group_texts.view_map(),
            old(state).field_group_snapshots.view_map(),
            *patch,
        ),
        keeps_other_state(*old(state), *final(state)),
{
    if field_row(patch.source.as_str()) {
        state.field_group_texts.insert(patch.patch_key.clone(), patch.new_text.clone());
        match &patch.snapshot {
            Some(snapshot) => {
                state.field_group_snapshots.insert(patch.patch_key.clone(), snapshot.clone());
            },
            None => {},
        }
    } else {
        state.paragraph_texts.insert(patch.patch_key.clone(), patch.new_text.clone());
    }
}

/// One step of the history: the patch applied under `patch_key`, and the patch
/// it replaced (`None` when the key had no patch).
pub struct PatchCommand {
    pub patch_key: String,
    pub old_patch: Option<PersistableRegionPatch>,
    pub new_patch: PersistableRegionPatch,
}

pub open spec fn texts_after_undo(
    paragraph_texts: Map<Seq<char>, String>,
    field_texts: Map<Seq<char>, String>,
    field_snapshots: Map<Seq<char>, String>,
    cmd: PatchCommand,
) -> (Map<Seq<char>, String>, Map<Seq<char>, String>, Map<Seq<char>, String>) {
    match cmd.old_patch {
        Some(old) => texts_after_apply(paragraph_texts, field_texts, field_snapshots, old),
        None => {
            let k = cmd.patch_key@;
            if cmd.new_patch.source@ == field_row_source() {
                (paragraph_texts, field_texts.remove(k), field_snapshots.remove(k))
            } else {
                (paragraph_texts.remove(k), field_texts, field_snapshots)
            }
        },
    }
}

impl PatchCommand {
    /// Applies the new patch.
    pub fn execute(&self, state: &mut GlobalPatchState)
        requires
            old(state).wf(),
        ensures
            final(state).wf(),
            text_maps(*final(state)) == texts_after_apply(
                old(state).paragraph_texts.view_map(),
                old(state).field_group_texts.view_map(),
                old(state).field_group_snapshots.view_map(),
                self.new_patch,
            ),
            keeps_other_state(*old(state), *final(state)),
    {
        apply_patch(state, &self.new_patch);
    }

    /// Re-applies the replaced patch, or drops the key when there was none.
    pub fn undo(&self, state: &mut GlobalPatchState)
        requires
            old(state).wf(),
        ensures
            final(state).wf(),
            text_maps(*final(state)) == texts_after_undo(
                old(state).paragraph_texts.view_map(),
                old(state).field_group_texts.view_map(),
                old(state).field_group_snapshots.view_map(),
                *self,
            ),
            keeps_patches_and_snapshots(*old(state), *final(state)),
            final(state).paragraph_layout_snapshots.view_map() == layout_snapshots_after_undo(
                old(state).paragraph_layout_snapshots.view_map(),
                *self,
            ),
    {
        match &self.old_patch {
            Some(old) => {
                apply_patch(state, old);
            },
            None => {
                if field_row(self.new_patch.source.as_str()) {
                    let _ = state.field_group_texts.remove(self.patch_key.as_str());
                    let _ = state.field_group_snapshots.remove(self.patch_key.as_str());
                } else {
                    let _ = state.paragraph_texts.remove(self.patch_key.as_str());
                    let _ = state.paragraph_layout_snapshots.remove(self.patch_key.as_str());
                }
            },
        }
    }
}

/// The most commands the undo stack keeps.
pub const MAX_UNDO_DEPTH: usize = 50;

/// Undo and redo stacks of patch commands, most recent last.
pub struct HistoryStore {
    pub undo_stack: Vec<PatchCommand>,
    pub redo_stack: Vec<PatchCommand>,
}

impl HistoryStore {
    pub fn new() -> (h: Self)
        ensures
            h.undo_stack@.len() == 0,
            h.redo_stack@.len() == 0,
    {
        HistoryStore { undo_stack: Vec::new(), redo_stack: Vec::new() }
    }

    /// Records a command (executing it first when asked), clears the redo
    /// stack and drops the oldest command beyond the undo depth.
    pub fn push(&mut self, state: &mut GlobalPatchState, cmd: PatchCommand, execute_immediately: bool)
        requires
            old(state).wf(),
        ensures
            final(state).wf(),
            keeps_other_state(*old(state), *final(state)),
            text_maps(*final(state)) == if execute_immediately {
                texts_after_apply(
                    old(state).paragraph_texts.view_map(),
                    old(state).field_group_texts.view_map(),
                    old(state).field_group_snapshots.view_map(),
                    cmd.new_patch,
                )
            } else {
                text_maps(*old(state))
            },
            final(self).undo_stack@ == if old(self).undo_stack@.len() + 1 <= MAX_UNDO_DEPTH {
                old(self).undo_stack@.push(cmd)
            } else {
                old(self).undo_stack@.push(cmd).drop_first()
            },
            final(self).redo_stack@.len() == 0,
    {
        if execute_immediately {
            cmd.execute(state);
        }
        self.undo_stack.push(cmd);
        self.redo_stack.clear();
        if self.undo_stack.len() > MAX_UNDO_DEPTH {
            self.undo_stack.remove(0);
        }
    }

    /// Undoes the most recent command and moves it to the redo stack; returns
    /// whether there was one.
    pub fn undo(&mut self, state: &mut GlobalPatchState) -> (done: bool)
        requires
            old(state).wf(),
        ensures
            final(state).wf(),
            keeps_patches_and_snapshots(*old(state), *final(state)),
            done == (old(self).undo_stack@.len() > 0),
            !done ==> *final(self) == *old(self) && *final(state) == *old(state),
            done ==> {
                let cmd = old(self).undo_stack@.last();
                &&& final(self).undo_stack@ == old(self).undo_stack@.drop_last()
                &&& final(self).redo_stack@ == old(self).redo_stack@.push(cmd)
                &&& text_maps(*final(state)) == texts_after_undo(
                    old(state).paragraph_texts.view_map(),
                    old(state).field_group_texts.view_map(),
                    old(state).field_group_snapshots.view_map(),
                    cmd,
                )
                &&& final(state).paragraph_layout_snapshots.view_map() == layout_snapshots_after_undo(
                    old(state).paragraph_layout_snapshots.view_map(),
                    cmd,
                )
            },
    {
        if self.undo_stack.len() == 0 {
            return false;
        }
        match self.undo_stack.pop() {
            Some(cmd) => {
                cmd.undo(state);
                self.redo_stack.push(cmd);
                true
            },
            None => false,
        }
    }

    /// Re-executes the most recently undone command and moves it back to the
    /// undo stack; returns whether there was one.
    pub fn redo(&mut self, state: &mut GlobalPatchState) -> (done: bool)
        requires
            old(state).wf(),
        ensures
            final(state).wf(),
            keeps_other_state(*old(state), *final(state)),
            done == (old(self).redo_stack@.len() > 0),
            !done ==> *final(self) == *old(self) && *final(state) == *old(state),
            done ==> {
                let cmd = old(self).redo_stack@.last();
                &&& final(self).redo_stack@ == old(self).redo_stack@.drop_last()
                &&& final(self).undo_stack@ == old(self).undo_stack@.push(cmd)
                &&& text_maps(*final(state)) == texts_after_apply(
                    old(state).paragraph_texts.view_map(),
                    old(state).field_group_texts.view_map(),
                    old(state).field_group_snapshots.view_map(),
                    cmd.new_patch,
                )
            },
    {
        if self.redo_stack.len() == 0 {
            return false;
        }
        match self.redo_stack.pop() {
            Some(cmd) => {
                cmd.execute(state);
                self.undo_stack.push(cmd);
                true
            },
            None => false,
        }
    }

    pub fn clear(&mut self)
        ensures
            final(self).undo_stack@.len() == 0,
            final(self).redo_stack@.len() == 0,
    {
        self.undo_stack.clear();
        self.redo_stack.clear();
    }
}

/// Records a command in the history, executing it.
pub fn push_command(history: &mut HistoryStore, state: &mut GlobalPatchState, cmd: PatchCommand)
    requires
        old(state).wf(),
    ensures
        final(state).wf(),
        keeps_other_state(*old(state), *final(state)),
        text_maps(*final(state)) == texts_after_apply(
            old(state).paragraph_texts.view_map(),
            old(state).field_group_texts.view_map(),
            old(state).field_group_snapshots.view_map(),
            cmd.new_patch,
        ),
        final(history).undo_stack@ == if old(history).undo_stack@.len() + 1 <= MAX_UNDO_DEPTH {
            old(history).undo_stack@.push(cmd)
        } else {
            old(history).undo_stack@.push(cmd).drop_first()
        },
        final(history).redo_stack@.len() == 0,
{
    history.push(state, cmd, true);
}

/// Undoes the most recent command of `history`; returns whether there was one.
pub fn undo(history: &mut HistoryStore, state: &mut GlobalPatchState) -> (done: bool)
    requires
        old(state).wf(),
    ensures
        final(state).wf(),
        keeps_patches_and_snapshots(*old(state), *final(state)),
        done == (old(history).undo_stack@.len() > 0),
        !done ==> *final(history) == *old(history) && *final(state) == *old(state),
        done ==> {
            let cmd = old(history).undo_stack@.last();
            &&& final(history).undo_stack@ == old(history).undo_stack@.drop_last()
            &&& final(history).redo_stack@ == old(history).redo_stack@.push(cmd)
            &&& text_maps(*final(state)) == texts_after_undo(
                old(state).paragraph_texts.view_map(),
                old(state).field_group_texts.view_map(),
                old(state).field_group_snapshots.view_map(),
                cmd,
            )
            &&& final(state).paragraph_layout_snapshots.view_map() == layout_snapshots_after_undo(
                old(state).paragraph_layout_snapshots.view_map(),
                cmd,
            )
        },
{
    history.undo(state)
}

/// Redoes the most recently undone command of `history`; returns whether
/// there was one.
pub fn redo(history: &mut HistoryStore, state: &mut GlobalPatchState) -> (done: bool)
    requires
        old(state).wf(),
    ensures
        final(state).wf(),
        keeps_other_state(*old(state), *final(state)),
        done == (old(history).redo_stack@.len() > 0),
        !done ==> *final(history) == *old(history) && *final(state) == *old(state),
        done ==> {
            let cmd = old(history).redo_stack@.last();
            &&& final(history).redo_stack@ == old(history).redo_stack@.drop_last()
            &&& final(history).undo_stack@ == old(history).undo_stack@.push(cmd)
            &&& text_maps(*final(state)) == texts_after_apply(
                old(state).paragraph_texts.view_map(),
                old(state).field_group_texts.view_map(),
                old(state).field_group_snapshots.view_map(),
                cmd.new_patch,
            )
        },
{
    history.redo(state)
}

/// Empties both stacks of `history`.
pub fn clear_history(history: &mut HistoryStore)
    ensures
        final(history).undo_stack@.len() == 0,
        final(history).redo_stack@.len() == 0,
{
    history.clear();
}

/// `cmd` recorded what its key held before it was executed: the replaced
/// patch's text (in the map of the same kind) or no entry at all.
pub open spec fn command_matches_prior_texts(
    paragraph_texts: Map<Seq<char>, String>,
    field_texts: Map<Seq<char>, String>,
    field_snapshots: Map<Seq<char>, String>,
    cmd: PatchCommand,
) -> bool {
    let k = cmd.new_patch.patch_key@;
    let is_row = cmd.new_patch.source@ == field_row_source();
    &&& cmd.patch_key@ == k
    &&& match cmd.old_patch {
        Some(old) => {
            &&& old.patch_key@ == k
            &&& (old.source@ == field_row_source()) == is_row
            &&& if is_row {
                &&& field_texts.contains_key(k)
                &&& field_texts[k] == old.new_text
                &&& match old.snapshot {
                    Some(s) => field_snapshots.contains_key(k) && field_snapshots[k] == s,
                    None => cmd.new_patch.snapshot is None,
                }
            } else {
                paragraph_texts.contains_key(k) && paragraph_texts[k] == old.new_text
            }
        },
        None => if is_row {
            !field_texts.contains_key(k) && !field_snapshots.contains_key(k)
        } else {
            !paragraph_texts.contains_key(k)
        },
    }
}

/// Undo after execute gives back the texts from before the command, when the
/// command recorded what its key held before.
pub proof fn undo_restores_texts(
    paragraph_texts: Map<Seq<char>, String>,
    field_texts: Map<Seq<char>, String>,
    field_snapshots: Map<Seq<char>, String>,
    cmd: PatchCommand,
)
    requires
        command_matches_prior_texts(paragraph_texts, field_texts, field_snapshots, cmd),
    ensures
        ({
            let after = texts_after_apply(
                paragraph_texts,
                field_texts,
                field_snapshots,
                cmd.new_patch,
            );
            texts_after_undo(after.0, after.1, after.2, cmd) == (
                paragraph_texts,
                field_texts,
                field_snapshots,
            )
        }),
{
    let k = cmd.new_patch.patch_key@;
    let after = texts_after_apply(paragraph_texts, field_texts, field_snapshots, cmd.new_patch);
    let undone = texts_after_undo(after.0, after.1, after.2, cmd);
    assert(undone.0 =~= paragraph_texts);
    assert(undone.1 =~= field_texts);
    assert(undone.2 =~= field_snapshots);
}

/// Redo after undo gives back the texts from after the command.
pub proof fn redo_after_undo_reapplies(
    paragraph_texts: Map<Seq<char>, String>,
    field_texts: Map<Seq<char>, String>,
    field_snapshots: Map<Seq<char>, String>,
    cmd: PatchCommand,
)
    requires
        command_matches_prior_texts(paragraph_texts, field_texts, field_snapshots, cmd),
    ensures
        ({
            let after = texts_after_apply(
                paragraph_texts,
                field_texts,
                field_snapshots,
                cmd.new_patch,
            );
            let undone = texts_after_undo(after.0, after.1, after.2, cmd);
            texts_after_apply(undone.0, undone.1, undone.2, cmd.new_patch) == after
        }),
{
    undo_restores_texts(paragraph_texts, field_texts, field_snapshots, cmd);
}

/// Whether `target_page` lies within `buffer` pages of `current_page` (the
/// current page itself is not prefetched).
pub fn should_prefetch_page(current_page: usize, target_page: usize, buffer: usize) -> (b: bool)
    ensures
        b == (target_page != current_page && (if target_page > current_page {
            target_page - current_page
        } else {
            current_page - target_page
        }) <= buffer),
{
    if target_page > current_page {
        target_page - current_page <= buffer
    } else if current_page > target_page {
        current_page - target_page <= buffer
    } else {
        false
    }
}

/// The pages of the prefetch window around `current_page`: from the page
/// before it to the page after it, within the document.
pub fn pagination_window(current_page: usize, total_pages: usize) -> (pages: Vec<usize>)
    requires
        current_page < usize::MAX,
    ensures
        ({
            let start = if current_page >= 1 {
                current_page - 1
            } else {
                0
            };
            let last = if total_pages >= 1 {
                total_pages - 1
            } else {
                0
            };
            let end = if current_page + 1 <= last {
                current_page + 1
            } else {
                last
            };
            &&& pages@.len() == if end >= start {
                end - start + 1
            } else {
                0
            }
            &&& forall|i: int| 0 <= i < pages@.len() ==> pages@[i] == start + i
        }),
{
    let start = current_page.saturating_sub(1);
    let last = total_pages.saturating_sub(1);
    let end = if current_page + 1 <= last {
        current_page + 1
    } else {
        last
    };
    let mut pages: Vec<usize> = Vec::new();
    if end < start {
        return pages;
    }
    let mut page = start;
    while page <= end
        invariant
            start <= page <= end + 1,
            end < usize::MAX,
            pages@.len() == page - start,
            forall|i: int| 0 <= i < pages@.len() ==> pages@[i] == start + i,
        decreases end + 1 - page,
    {
        pages.push(page);
        page = page + 1;
    }
    pages
}

} // verus!
