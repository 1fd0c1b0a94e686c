//! The state of a paragraph being edited, as plain values: its source text,
//! the current draft text, the caret (in characters), the list kind and the
//! alignment, with the revision counter and the dirty flag that every change
//! bumps.

use vstd::prelude::*;
use crate::text_format::to_owned_string;

verus! {

/// Kind of list marker in front of a paragraph.
#[derive(Clone, Copy, PartialEq, Eq, Structural, Debug)]
pub enum ListMarkerKind {
    NoMarker,
    Bullet,
    Numbering,
    Symbol,
    Custom,
}

/// Horizontal alignment of a paragraph.
#[derive(Clone, Copy, PartialEq, Eq, Structural, Debug)]
pub enum LayoutAlignment {
    Left,
    Center,
    Right,
    Justify,
}

/// Editor session state of the application.
#[derive(Clone, Copy, PartialEq, Eq, Structural, Debug)]
pub enum SessionState {
    /// View-only, editing disabled.
    Viewing,
    /// Edit mode activated, no block open.
    Editing,
    /// Actively editing a specific text block.
    EditingBlock,
    /// Saving to disk.
    Saving,
}

pub open spec fn session_state_name(state: SessionState) -> Seq<char> {
    match state {
        SessionState::Viewing => seq!['V', 'i', 'e', 'w', 'i', 'n', 'g'],
        SessionState::Editing => seq!['E', 'd', 'i', 't', 'i', 'n', 'g'],
        SessionState::EditingBlock => seq![
            'E',
            'd',
            'i',
            't',
            'i',
            'n',
            'g',
            'B',
            'l',
            'o',
            'c',
            'k',
        ],
        SessionState::Saving => seq!['S', 'a', 'v', 'i', 'n', 'g'],
    }
}

impl SessionState {
    pub fn as_str(&self) -> (s: &'static str)
        ensures
            s@ == session_state_name(*self),
    {
        match self {
            SessionState::Viewing => {
                proof {
                    reveal_strlit("Viewing");
                }
                "Viewing"
            },
            SessionState::Editing => {
                proof {
                    reveal_strlit("Editing");
                }
                "Editing"
            },
            SessionState::EditingBlock => {
                proof {
                    reveal_strlit("EditingBlock");
                }
                "EditingBlock"
            },
            SessionState::Saving => {
                proof {
                    reveal_strlit("Saving");
                }
                "Saving"
            },
        }
    }
}

pub open spec fn alignment_name(align: LayoutAlignment) -> Seq<char> {
    match align {
        LayoutAlignment::Left => seq!['l', 'e', 'f', 't'],
        LayoutAlignment::Center => seq!['c', 'e', 'n', 't', 'e', 'r'],
        LayoutAlignment::Right => seq!['r', 'i', 'g', 'h', 't'],
        LayoutAlignment::Justify => seq!['j', 'u', 's', 't', 'i', 'f', 'y'],
    }
}

pub fn alignment_label(align: LayoutAlignment) -> (s: &'static str)
    ensures
        s@ == alignment_name(align),
{
    match align {
        LayoutAlignment::Left => {
            proof {
                reveal_strlit("left");
            }
            "left"
        },
        LayoutAlignment::Center => {
            proof {
                reveal_strlit("center");
            }
            "center"
        },
        LayoutAlignment::Right => {
            proof {
                reveal_strlit("right");
            }
            "right"
        },
        LayoutAlignment::Justify => {
            proof {
                reveal_strlit("justify");
            }
            "justify"
        },
    }
}

pub open spec fn list_kind_name(kind: ListMarkerKind) -> Seq<char> {
    match kind {
        ListMarkerKind::NoMarker => seq!['n', 'o', 'n', 'e'],
        ListMarkerKind::Bullet => seq!['b', 'u', 'l', 'l', 'e', 't'],
        ListMarkerKind::Numbering => seq!['n', 'u', 'm', 'b', 'e', 'r', 'i', 'n', 'g'],
        ListMarkerKind::Symbol => seq!['s', 'y', 'm', 'b', 'o', 'l'],
        ListMarkerKind::Custom => seq!['c', 'u', 's', 't', 'o', 'm'],
    }
}

pub fn list_kind_label(kind: ListMarkerKind) -> (s: &'static str)
    ensures
        s@ == list_kind_name(kind),
{
    match kind {
        ListMarkerKind::NoMarker => {
            proof {
                reveal_strlit("none");
            }
            "none"
        },
        ListMarkerKind::Bullet => {
            proof {
                reveal_strlit("bullet");
            }
            "bullet"
        },
        ListMarkerKind::Numbering => {
            proof {
                reveal_strlit("numbering");
            }
            "numbering"
        },
        ListMarkerKind::Symbol => {
            proof {
                reveal_strlit("symbol");
            }
            "symbol"
        },
        ListMarkerKind::Custom => {
            proof {
                reveal_strlit("custom");
            }
            "custom"
        },
    }
}

/// The bullet character U+2022.
pub open spec fn default_bullet() -> Seq<char> {
    seq!['\u{2022}']
}

pub open spec fn default_numbering() -> Seq<char> {
    seq!['1', '.']
}

/// The marker text for `next_kind`: the source marker is kept when it suits
/// the new kind, otherwise a default marker is used.
pub open spec fn spec_next_marker_text(
    next_kind: ListMarkerKind,
    source_kind: ListMarkerKind,
    source_marker: Seq<char>,
) -> Seq<char> {
    match next_kind {
        ListMarkerKind::NoMarker => Seq::empty(),
        ListMarkerKind::Bullet => if (source_kind == ListMarkerKind::Bullet || source_kind
            == ListMarkerKind::Symbol || source_kind == ListMarkerKind::Custom)
            && source_marker.len() > 0 {
            source_marker
        } else {
            default_bullet()
        },
        ListMarkerKind::Numbering => if source_kind == ListMarkerKind::Numbering
            && source_marker.len() > 0 {
            source_marker
        } else {
            default_numbering()
        },
        ListMarkerKind::Symbol | ListMarkerKind::Custom => if source_marker.len() > 0 {
            source_marker
        } else {
            default_bullet()
        },
    }
}

pub open spec fn opt_text(t: Option<Seq<char>>) -> Seq<char> {
    match t {
        Some(s) => s,
        None => Seq::empty(),
    }
}

pub fn derive_next_marker_text(
    next_kind: ListMarkerKind,
    source_kind: ListMarkerKind,
    source_marker_text: Option<&str>,
) -> (text: String)
    ensures
        text@ == spec_next_marker_text(
            next_kind,
            source_kind,
            opt_text(
                match source_marker_text {
                    Some(s) => Some(s@),
                    None => None,
                },
            ),
        ),
        text@ == spec_next_marker_text(
            next_kind,
            source_kind,
            (match source_marker_text {
                Some(s) => s@,
                None => Seq::<char>::empty(),
            }),
        ),
{
    proof {
        reveal_strlit("\u{2022}");
        reveal_strlit("1.");
        reveal_strlit("");
    }
    let source_marker = match source_marker_text {
        Some(s) => to_owned_string(s),
        None => to_owned_string(""),
    };
    let has_source = source_marker.as_str().unicode_len() > 0;
    match next_kind {
        ListMarkerKind::NoMarker => String::new(),
        ListMarkerKind::Bullet => {
            if (source_kind == ListMarkerKind::Bullet || source_kind == ListMarkerKind::Symbol
                || source_kind == ListMarkerKind::Custom) && has_source {
                source_marker
            } else {
                to_owned_string("\u{2022}")
            }
        },
        ListMarkerKind::Numbering => {
            if source_kind == ListMarkerKind::Numbering && has_source {
                source_marker
            } else {
                to_owned_string("1.")
            }
        },
        ListMarkerKind::Symbol | ListMarkerKind::Custom => {
            if has_source {
                source_marker
            } else {
                to_owned_string("\u{2022}")
            }
        },
    }
}

/// How the edited text is laid out.
#[derive(Clone, Copy, PartialEq, Eq, Structural, Debug)]
pub enum EditedTextGeometryPolicy {
    PreserveSourceGeometry,
    MeasureEditedText,
}

/// The source geometry is kept only when the draft is the source text and the
/// source runs spell that text.
pub fn resolve_edited_text_geometry_policy(
    source_text: &str,
    draft_text: &str,
    source_runs_match_text: bool,
) -> (policy: EditedTextGeometryPolicy)
    ensures
        policy == (if draft_text@ == source_text@ && source_runs_match_text {
            EditedTextGeometryPolicy::PreserveSourceGeometry
        } else {
            EditedTextGeometryPolicy::MeasureEditedText
        }),
{
    if crate::chars::str_eq(draft_text, source_text) && source_runs_match_text {
        EditedTextGeometryPolicy::PreserveSourceGeometry
    } else {
        EditedTextGeometryPolicy::MeasureEditedText
    }
}

/// A paragraph being edited.
pub struct LiveEditorParagraphState {
    pub paragraph_id: String,
    /// The text of the paragraph body as the document holds it.
    pub source_text: String,
    /// The draft text.
    pub current_text: String,
    /// Characters of the body text plan (the laid-out source slots).
    pub slot_chars: Vec<char>,
    /// Kind and text of the list marker in the source, if any.
    pub source_list_kind: ListMarkerKind,
    pub source_marker_text: Option<String>,
    pub source_alignment: LayoutAlignment,
    pub alignment: LayoutAlignment,
    pub list_kind: ListMarkerKind,
    pub caret_index: usize,
    pub scene_revision: u64,
    pub session_dirty: bool,
}

pub open spec fn bump(n: u64) -> u64 {
    if n == u64::MAX {
        u64::MAX
    } else {
        (n + 1) as u64
    }
}

pub open spec fn min_int(a: int, b: int) -> int {
    if a <= b {
        a
    } else {
        b
    }
}

impl LiveEditorParagraphState {
    /// Opens a paragraph: the draft starts as the source text, the list kind
    /// and alignment start as the source ones, the caret at
    /// `initial_caret_index`.
    pub fn new(
        paragraph_id: String,
        source_text: String,
        slot_chars: Vec<char>,
        source_list_kind: ListMarkerKind,
        source_marker_text: Option<String>,
        source_alignment: LayoutAlignment,
        initial_caret_index: usize,
    ) -> (s: Self)
        ensures
            s.paragraph_id == paragraph_id,
            s.source_text == source_text,
            s.current_text@ == source_text@,
            s.slot_chars == slot_chars,
            s.source_list_kind == source_list_kind,
            s.source_marker_text == source_marker_text,
            s.source_alignment == source_alignment,
            s.alignment == source_alignment,
            s.list_kind == source_list_kind,
            s.caret_index == initial_caret_index,
            s.scene_revision == 0,
            !s.session_dirty,
    {
        let current_text = source_text.clone();
        LiveEditorParagraphState {
            paragraph_id,
            source_text,
            current_text,
            slot_chars,
            source_list_kind,
            source_marker_text,
            source_alignment,
            alignment: source_alignment,
            list_kind: source_list_kind,
            caret_index: initial_caret_index,
            scene_revision: 0,
            session_dirty: false,
        }
    }

    pub fn paragraph_id(&self) -> (id: &str)
        ensures
            id@ == self.paragraph_id@,
    {
        self.paragraph_id.as_str()
    }

    pub fn text_char_count(&self) -> (n: usize)
        ensures
            n == self.current_text@.len(),
    {
        self.current_text.as_str().unicode_len()
    }

    pub fn current_text(&self) -> (t: &str)
        ensures
            t@ == self.current_text@,
    {
        self.current_text.as_str()
    }

    pub fn draft_text(&self) -> (t: &str)
        ensures
            t@ == self.current_text@,
    {
        self.current_text.as_str()
    }

    pub fn source_text(&self) -> (t: &str)
        ensures
            t@ == self.source_text@,
    {
        self.source_text.as_str()
    }

    pub fn normalized_caret_index(&self) -> (c: usize)
        ensures
            c == min_int(self.caret_index as int, self.current_text@.len() as int),
    {
        let n = self.text_char_count();
        if self.caret_index < n {
            self.caret_index
        } else {
            n
        }
    }

    /// Clamps the caret to the end of the draft.
    pub fn normalize_caret(&mut self)
        ensures
            final(self).caret_index == min_int(
                old(self).caret_index as int,
                old(self).current_text@.len() as int,
            ),
            final(self).current_text == old(self).current_text,
            final(self).scene_revision == old(self).scene_revision,
            final(self).session_dirty == old(self).session_dirty,
            final(self).list_kind == old(self).list_kind,
            final(self).alignment == old(self).alignment,
    {
        self.caret_index = self.normalized_caret_index();
    }

    /// Moves the caret (clamped to the end of the draft); returns whether it
    /// moved.
    pub fn set_caret_index(&mut self, caret_index: usize) -> (changed: bool)
        ensures
            final(self).caret_index == min_int(
                caret_index as int,
                old(self).current_text@.len() as int,
            ),
            changed == (old(self).caret_index != final(self).caret_index),
            final(self).current_text == old(self).current_text,
            final(self).scene_revision == old(self).scene_revision,
            final(self).session_dirty == old(self).session_dirty,
            final(self).list_kind == old(self).list_kind,
            final(self).alignment == old(self).alignment,
    {
        let n = self.text_char_count();
        let normalized = if caret_index < n {
            caret_index
        } else {
            n
        };
        let changed = self.caret_index != normalized;
        if changed {
            self.caret_index = normalized;
        }
        changed
    }

    /// Replaces the draft text. A change bumps the revision, marks the session
    /// dirty and clamps the caret; returns whether the text changed.
    pub fn set_draft_text(&mut self, new_text: String) -> (changed: bool)
        ensures
            changed == (new_text@ != old(self).current_text@),
            final(self).current_text@ == new_text@,
            changed ==> final(self).caret_index == min_int(
                old(self).caret_index as int,
                new_text@.len() as int,
            ),
            changed ==> final(self).scene_revision == bump(old(self).scene_revision),
            changed ==> final(self).session_dirty,
            !changed ==> final(self).caret_index == old(self).caret_index,
            !changed ==> final(self).scene_revision == old(self).scene_revision,
            !changed ==> final(self).session_dirty == old(self).session_dirty,
            final(self).list_kind == old(self).list_kind,
            final(self).alignment == old(self).alignment,
    {
        let changed = !crate::chars::str_eq(new_text.as_str(), self.current_text.as_str());
        if changed {
            self.current_text = new_text;
            self.normalize_caret();
            self.scene_revision = self.scene_revision.saturating_add(1);
            self.session_dirty = true;
        }
        changed
    }

    pub fn active_alignment(&self) -> (a: LayoutAlignment)
        ensures
            a == self.alignment,
    {
        self.alignment
    }

    pub fn active_alignment_label(&self) -> (s: String)
        ensures
            s@ == alignment_name(self.alignment),
    {
        to_owned_string(alignment_label(self.alignment))
    }

    pub fn source_alignment(&self) -> (a: LayoutAlignment)
        ensures
            a == self.source_alignment,
    {
        self.source_alignment
    }

    pub fn source_list_kind(&self) -> (k: ListMarkerKind)
        ensures
            k == self.source_list_kind,
    {
        self.source_list_kind
    }

    pub fn active_list_kind(&self) -> (k: ListMarkerKind)
        ensures
            k == self.list_kind,
    {
        self.list_kind
    }

    pub fn active_list_kind_label(&self) -> (s: String)
        ensures
            s@ == list_kind_name(self.list_kind),
    {
        to_owned_string(list_kind_label(self.list_kind))
    }

    pub fn has_session_changes(&self) -> (b: bool)
        ensures
            b == self.session_dirty,
    {
        self.session_dirty
    }

    pub fn mark_session_clean(&mut self)
        ensures
            !final(self).session_dirty,
            final(self).current_text == old(self).current_text,
            final(self).caret_index == old(self).caret_index,
            final(self).scene_revision == old(self).scene_revision,
    {
        self.session_dirty = false;
    }

    /// Sets the alignment; returns whether it changed (a change bumps the
    /// revision and marks the session dirty).
    pub fn set_alignment(&mut self, align: LayoutAlignment) -> (changed: bool)
        ensures
            changed == (old(self).alignment != align),
            final(self).alignment == align,
            changed ==> final(self).scene_revision == bump(old(self).scene_revision)
                && final(self).session_dirty,
            !changed ==> final(self).scene_revision == old(self).scene_revision
                && final(self).session_dirty == old(self).session_dirty,
            final(self).current_text == old(self).current_text,
            final(self).caret_index == old(self).caret_index,
            final(self).list_kind == old(self).list_kind,
    {
        if self.alignment == align {
            return false;
        }
        self.alignment = align;
        self.scene_revision = self.scene_revision.saturating_add(1);
        self.session_dirty = true;
        true
    }

    /// Selects a list kind; selecting the active kind again (other than
    /// `None`) toggles the list off. Returns whether the kind changed.
    pub fn set_list_kind(&mut self, list_kind: ListMarkerKind) -> (changed: bool)
        ensures
            final(self).list_kind == (if old(self).list_kind == list_kind && list_kind
                != ListMarkerKind::NoMarker {
                ListMarkerKind::NoMarker
            } else {
                list_kind
            }),
            changed == (final(self).list_kind != old(self).list_kind),
            changed ==> final(self).scene_revision == bump(old(self).scene_revision)
                && final(self).session_dirty,
            !changed ==> final(self).scene_revision == old(self).scene_revision
                && final(self).session_dirty == old(self).session_dirty,
            final(self).current_text == old(self).current_text,
            final(self).caret_index == old(self).caret_index,
            final(self).alignment == old(self).alignment,
    {
        let next_kind = if self.list_kind == list_kind && list_kind != ListMarkerKind::NoMarker {
            ListMarkerKind::NoMarker
        } else {
            list_kind
        };
        if self.list_kind == next_kind {
            return false;
        }
        self.list_kind = next_kind;
        self.scene_revision = self.scene_revision.saturating_add(1);
        self.session_dirty = true;
        true
    }

    pub open spec fn source_marker_view(&self) -> Seq<char> {
        match self.source_marker_text {
            Some(s) => s@,
            None => Seq::empty(),
        }
    }

    /// The marker text a patch should carry: the marker for the active list
    /// kind, or `None` when the paragraph has and had no list marker.
    pub fn resolved_marker_text_for_patch(&self) -> (text: Option<String>)
        ensures
            ({
                let next = spec_next_marker_text(
                    self.list_kind,
                    self.source_list_kind,
                    self.source_marker_view(),
                );
                match text {
                    None => next.len() == 0 && self.source_list_kind == ListMarkerKind::NoMarker,
                    Some(t) => t@ == next && !(next.len() == 0 && self.source_list_kind
                        == ListMarkerKind::NoMarker),
                }
            }),
    {
        let source = match &self.source_marker_text {
            Some(s) => Some(s.as_str()),
            None => None,
        };
        let next = derive_next_marker_text(self.list_kind, self.source_list_kind, source);
        if next.as_str().unicode_len() == 0 && self.source_list_kind == ListMarkerKind::NoMarker {
            None
        } else {
            Some(next)
        }
    }

    /// The source marker text, if the paragraph has a marker.
    pub fn source_marker_text_for_patch(&self) -> (text: Option<&str>)
        ensures
            match text {
                Some(t) => self.source_marker_text matches Some(s) && t@ == s@,
                None => self.source_marker_text is None,
            },
    {
        match &self.source_marker_text {
            Some(s) => Some(s.as_str()),
            None => None,
        }
    }

    /// The body text plan characters, in order.
    pub fn slot_text_chars(&self) -> (chars: &Vec<char>)
        ensures
            chars@ == self.slot_chars@,
    {
        &self.slot_chars
    }
}

/// Picking a list kind twice in a row returns to the kind before the first
/// pick (for a paragraph that had no list, or whose list was of that kind).
pub proof fn set_list_kind_twice(before: ListMarkerKind, pick: ListMarkerKind)
    requires
        pick != ListMarkerKind::NoMarker,
    ensures
        ({
            let once = if before == pick && pick != ListMarkerKind::NoMarker {
                ListMarkerKind::NoMarker
            } else {
                pick
            };
            let twice = if once == pick && pick != ListMarkerKind::NoMarker {
                ListMarkerKind::NoMarker
            } else {
                pick
            };
            (before == ListMarkerKind::NoMarker || before == pick) ==> twice == before
        }),
{
}

/// The marker a list item gets when its kind becomes `next_kind`, from the
/// marker `source_marker` of kind `source_kind` it had: no marker for no
/// list; for a bullet list, the source marker when it was a bullet, symbol or
/// custom marker, else `•`; for a numbered list, the source marker when it
/// was a number, else `1.`; for a symbol or custom list, the source marker
/// whatever its kind, and `•` only when there is none.
pub proof fn next_marker_text_keeps_a_fitting_source_marker(
    next_kind: ListMarkerKind,
    source_kind: ListMarkerKind,
    source_marker: Seq<char>,
)
    ensures
        next_kind == ListMarkerKind::NoMarker ==> spec_next_marker_text(
            next_kind,
            source_kind,
            source_marker,
        ).len() == 0,
        next_kind == ListMarkerKind::Bullet ==> spec_next_marker_text(
            next_kind,
            source_kind,
            source_marker,
        ) == if source_kind != ListMarkerKind::NoMarker && source_kind != ListMarkerKind::Numbering
            && source_marker.len() > 0 {
            source_marker
        } else {
            seq!['\u{2022}']
        },
        next_kind == ListMarkerKind::Numbering ==> spec_next_marker_text(
            next_kind,
            source_kind,
            source_marker,
        ) == if source_kind == ListMarkerKind::Numbering && source_marker.len() > 0 {
            source_marker
        } else {
            seq!['1', '.']
        },
        (next_kind == ListMarkerKind::Symbol || next_kind == ListMarkerKind::Custom)
            ==> spec_next_marker_text(next_kind, source_kind, source_marker) == if source_marker.len()
            > 0 {
            source_marker
        } else {
            seq!['\u{2022}']
        },
{
}

} // verus!
