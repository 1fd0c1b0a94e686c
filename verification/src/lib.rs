//! The verified core of a PDF viewer and editor: text alignment and
//! normalisation, editing operations on paragraphs, edit targets, the
//! semantic model's validation, the patch store with its undo history, the
//! save plan, and the records exchanged with the user interface.

use vstd::prelude::*;

pub mod chars;
pub mod text_diff;
pub mod source_text;
pub mod lca;
pub mod text_format;
pub mod trace;
pub mod debug_trace;
pub mod editor_state;
pub mod document_edit;
pub mod edit_target;
pub mod target_resolution;
pub mod semantic_block;
pub mod keyed_map;
pub mod patch_store;
pub mod save_plan;
pub mod annotation_types;
pub mod session_types;
pub mod page_models;
pub mod review_types;
pub mod run_ranges;
pub mod save_sources;
pub mod page_text;
pub mod source_identity;
pub mod line_break;
pub mod draft_style;

verus! {

/// The version of this library, as its package declares it.
pub fn read_core_version() -> (version: &'static str)
    ensures
        version@ == "0.1.0"@,
{
    "0.1.0"
}

} // verus!
