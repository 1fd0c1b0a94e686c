//! Annotation and comment-review records exchanged with the user interface:
//! the PDF annotation kinds, the annotation errors, and the requests and
//! results of the comment review panel.

use vstd::prelude::*;

verus! {

/// PDF annotation subtype; kinds outside this list are `Other`.
#[derive(Clone, Copy, PartialEq, Eq, Structural, Debug)]
pub enum AnnotationKind {
    /// Sticky note (`/Text`).
    TextNote,
    /// Highlighted region (`/Highlight`).
    Highlight,
    /// Underline (`/Underline`).
    Underline,
    /// Squiggly underline (`/Squiggly`).
    Squiggly,
    /// Strike-through (`/StrikeOut`).
    Strikeout,
    /// Free-form ink stroke (`/Ink`).
    Ink,
    /// Image stamp (`/Stamp`).
    Stamp,
    /// Hyperlink (`/Link`).
    Link,
    /// Digital signature placeholder.
    Signature,
    /// Free-floating text label (`/FreeText`).
    FreeText,
    /// Any other annotation subtype.
    Other,
}

/// Why an annotation request failed.
#[derive(Clone, Debug)]
pub enum AnnotationError {
    /// The payload had an illegal value.
    InvalidInput { field: String, reason: String },
    /// No annotation with this id exists on the page.
    NotFound { annotation_id: String },
    /// The method is reserved but not implemented.
    NotImplemented { method: String },
    /// Reading or writing annotations failed.
    IoError { message: String },
    /// Unrecoverable internal error.
    Internal { message: String },
}

/// Comment counts of one page in the review panel.
#[derive(Clone, Debug, Default, PartialEq)]
pub struct PdfCommentReviewPageSummary {
    pub page_index: u16,
    pub total_comments: usize,
    pub filtered_comments: usize,
}

/// A review query: an optional page and a search text.
#[derive(Clone, Debug, Default, PartialEq)]
pub struct PdfCommentReviewRequest {
    pub page_index: Option<u16>,
    pub query: String,
}

/// A per-page chip of the review panel.
#[derive(Clone, Debug, Default, PartialEq)]
pub struct PdfCommentReviewSummaryChip {
    pub page_index: u16,
    pub label: String,
}

/// An action button of a review card.
#[derive(Clone, Debug, Default, PartialEq)]
pub struct PdfCommentReviewCardAction {
    pub id: String,
    pub label: String,
    pub tone: String,
}

/// One comment card of the review panel.
#[derive(Clone, Debug, Default, PartialEq)]
pub struct PdfCommentReviewCard {
    pub id: String,
    pub page_index: u16,
    pub contents: String,
    pub page_label: String,
    pub location_label: String,
    pub helper_label: String,
    pub selected: bool,
    pub actions: Vec<PdfCommentReviewCardAction>,
}

/// The review panel: its header text, chips and cards.
#[derive(Clone, Debug, Default, PartialEq)]
pub struct PdfCommentReviewPanel {
    pub meta_text: String,
    pub empty: bool,
    pub summary_chips: Vec<PdfCommentReviewSummaryChip>,
    pub cards: Vec<PdfCommentReviewCard>,
}

/// Result of attaching a comment to a region.
#[derive(Clone, Debug, Default, PartialEq)]
pub struct PdfRegionCommentResult {
    pub added: bool,
    pub page_index: u16,
    pub region_id: String,
}

/// Request to delete an annotation.
#[derive(Clone, Debug, Default, PartialEq)]
pub struct PdfDeleteAnnotationRequest {
    pub page_index: u16,
    pub annotation_id: String,
}

/// Result of deleting an annotation.
#[derive(Clone, Debug, Default, PartialEq)]
pub struct PdfDeleteAnnotationResult {
    pub deleted: bool,
    pub page_index: u16,
    pub annotation_id: String,
}

/// Request to change the text of a comment.
#[derive(Clone, Debug, Default, PartialEq)]
pub struct PdfUpdateCommentRequest {
    pub page_index: u16,
    pub annotation_id: String,
    pub contents: String,
}

/// Result of changing the text of a comment.
#[derive(Clone, Debug, Default, PartialEq)]
pub struct PdfUpdateCommentResult {
    pub updated: bool,
    pub page_index: u16,
    pub annotation_id: String,
}

} // verus!
