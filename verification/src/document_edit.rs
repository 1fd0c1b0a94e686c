//! Text editing commands on the draft of a paragraph. All indices are
//! character (Unicode scalar) indices into the semantic draft text, never
//! byte offsets and never indices into the laid-out slot text.

use vstd::prelude::*;
use crate::chars::{chars_to_text, collect_chars, str_eq};
use crate::editor_state::{min_int, LiveEditorParagraphState};

verus! {

/// The draft resolved for an editing command.
pub struct EditorResolvedDocumentState {
    pub source_text: String,
    pub current_text: String,
    pub current_chars: Vec<char>,
    /// The characters the command edits: always the semantic draft text.
    pub mutation_chars: Vec<char>,
    pub caret_index: usize,
    pub is_pristine: bool,
    pub is_slot_backed: bool,
}

impl EditorResolvedDocumentState {
    pub fn char_count(&self) -> (n: usize)
        ensures
            n == self.mutation_chars@.len(),
    {
        self.mutation_chars.len()
    }
}

/// Resolves the draft of `state` for an editing command.
pub fn resolve_document_state(state: &LiveEditorParagraphState) -> (resolved:
    EditorResolvedDocumentState)
    ensures
        resolved.source_text@ == state.source_text@,
        resolved.current_text@ == state.current_text@,
        resolved.current_chars@ == state.current_text@,
        resolved.mutation_chars@ == state.current_text@,
        resolved.caret_index == min_int(state.caret_index as int, state.current_text@.len() as int),
        resolved.is_pristine == (state.current_text@ == state.source_text@),
        resolved.is_slot_backed == (state.current_text@ == state.source_text@
            && state.slot_chars@.len() > 0 && state.slot_chars@ == state.source_text@),
{
    let source_text = state.source_text.clone();
    let current_text = state.current_text.clone();
    let current_chars = collect_chars(current_text.as_str());
    let is_pristine = str_eq(current_text.as_str(), source_text.as_str());
    let source_chars = collect_chars(source_text.as_str());
    let slots = state.slot_text_chars();
    let mut same = slots.len() == source_chars.len();
    let mut i: usize = 0;
    while same && i < slots.len()
        invariant
            i <= slots.len(),
            same ==> slots.len() == source_chars.len(),
            same ==> forall|k: int| 0 <= k < i ==> slots@[k] == source_chars@[k],
            !same ==> slots@ != source_chars@,
        decreases slots.len() - i,
    {
        if slots[i] != source_chars[i] {
            same = false;
        }
        i = i + 1;
    }
    if same {
        assert(slots@ =~= source_chars@);
    }
    let is_slot_backed = is_pristine && slots.len() > 0 && same;
    let mutation_chars = collect_chars(current_text.as_str());
    let caret_index = state.normalized_caret_index();
    EditorResolvedDocumentState {
        source_text,
        current_text,
        current_chars,
        mutation_chars,
        caret_index,
        is_pristine,
        is_slot_backed,
    }
}

/// The draft text and caret after an editing command.
pub struct EditorTextMutation {
    pub text: String,
    pub caret_index: usize,
}

/// Inserting `inserted` at `caret` (already clamped to the text).
pub open spec fn spec_insert(text: Seq<char>, caret: int, inserted: Seq<char>) -> (Seq<char>, int) {
    (text.take(caret) + inserted + text.skip(caret), caret + inserted.len())
}

/// Backspace at `caret`: removes the character before the caret.
pub open spec fn spec_delete_backward(text: Seq<char>, caret: int) -> (Seq<char>, int) {
    if caret == 0 {
        (text, 0)
    } else {
        (text.remove(caret - 1), caret - 1)
    }
}

/// Delete at `caret`: removes the character after the caret.
pub open spec fn spec_delete_forward(text: Seq<char>, caret: int) -> (Seq<char>, int) {
    if caret >= text.len() {
        (text, caret)
    } else {
        (text.remove(caret), caret)
    }
}

/// The caret of `state`, clamped to the end of its draft.
pub open spec fn clamped_caret(state: LiveEditorParagraphState) -> int {
    min_int(state.caret_index as int, state.current_text@.len() as int)
}

/// Inserts `inserted_text` at the caret.
pub fn insert_text(state: &LiveEditorParagraphState, inserted_text: &str) -> (m:
    EditorTextMutation)
    requires
        state.current_text@.len() + inserted_text@.len() <= usize::MAX,
    ensures
        (m.text@, m.caret_index as int) == spec_insert(
            state.current_text@,
            clamped_caret(*state),
            inserted_text@,
        ),
{
    let resolved = resolve_document_state(state);
    let current_caret = resolved.caret_index;
    let inserted = collect_chars(inserted_text);
    let old_chars = resolved.mutation_chars;
    let mut next_chars: Vec<char> = Vec::new();
    let mut i: usize = 0;
    while i < current_caret
        invariant
            current_caret <= old_chars.len(),
            i <= current_caret,
            next_chars@ == old_chars@.take(i as int),
        decreases current_caret - i,
    {
        next_chars.push(old_chars[i]);
        assert(old_chars@.take(i as int).push(old_chars@[i as int]) =~= old_chars@.take(i + 1));
        i = i + 1;
    }
    let mut j: usize = 0;
    while j < inserted.len()
        invariant
            j <= inserted.len(),
            next_chars@ == old_chars@.take(current_caret as int) + inserted@.take(j as int),
        decreases inserted.len() - j,
    {
        next_chars.push(inserted[j]);
        assert(inserted@.take(j as int).push(inserted@[j as int]) =~= inserted@.take(j + 1));
        j = j + 1;
    }
    assert(inserted@.take(inserted.len() as int) =~= inserted@);
    let mut k: usize = current_caret;
    while k < old_chars.len()
        invariant
            current_caret <= k <= old_chars.len(),
            next_chars@ == old_chars@.take(current_caret as int) + inserted@ + old_chars@.subrange(
                current_caret as int,
                k as int,
            ),
        decreases old_chars.len() - k,
    {
        next_chars.push(old_chars[k]);
        assert(old_chars@.subrange(current_caret as int, k as int).push(old_chars@[k as int])
            =~= old_chars@.subrange(current_caret as int, k + 1));
        k = k + 1;
    }
    assert(old_chars@.subrange(current_caret as int, old_chars.len() as int) =~= old_chars@.skip(
        current_caret as int,
    ));
    let next_text = chars_to_text(next_chars);
    EditorTextMutation { text: next_text, caret_index: current_caret + inserted.len() }
}

/// Removes the character at `index` from a copy of `chars`.
fn without_index(chars: &Vec<char>, index: usize) -> (out: Vec<char>)
    requires
        index < chars.len(),
    ensures
        out@ == chars@.remove(index as int),
{
    let mut out: Vec<char> = Vec::new();
    let mut i: usize = 0;
    while i < chars.len()
        invariant
            index < chars.len(),
            i <= chars.len(),
            i <= index ==> out@ == chars@.take(i as int),
            i > index ==> out@ == chars@.take(index as int) + chars@.subrange(
                index + 1,
                i as int,
            ),
        decreases chars.len() - i,
    {
        if i != index {
            out.push(chars[i]);
        }
        proof {
            if i < index {
                assert(chars@.take(i as int).push(chars@[i as int]) =~= chars@.take(i + 1));
            } else if i == index {
                assert(chars@.take(index as int) + chars@.subrange(index + 1, i + 1)
                    =~= chars@.take(index as int));
            } else {
                assert(chars@.subrange(index + 1, i as int).push(chars@[i as int])
                    =~= chars@.subrange(index + 1, i + 1));
                assert(chars@.take(index as int) + chars@.subrange(index + 1, i as int).push(
                    chars@[i as int],
                ) =~= (chars@.take(index as int) + chars@.subrange(index + 1, i as int)).push(
                    chars@[i as int],
                ));
            }
        }
        i = i + 1;
    }
    assert(chars@.take(index as int) + chars@.subrange(index + 1, chars.len() as int)
        =~= chars@.remove(index as int));
    out
}

/// Backspace: removes the character before the caret; a no-op at the start.
pub fn delete_backward(state: &LiveEditorParagraphState) -> (m: EditorTextMutation)
    ensures
        (m.text@, m.caret_index as int) == spec_delete_backward(
            state.current_text@,
            clamped_caret(*state),
        ),
{
    let resolved = resolve_document_state(state);
    let current_caret = resolved.caret_index;
    if current_caret == 0 {
        return EditorTextMutation { text: resolved.current_text, caret_index: 0 };
    }
    let next_chars = without_index(&resolved.mutation_chars, current_caret - 1);
    let next_text = chars_to_text(next_chars);
    EditorTextMutation { text: next_text, caret_index: current_caret - 1 }
}

/// Delete: removes the character after the caret; a no-op at the end.
pub fn delete_forward(state: &LiveEditorParagraphState) -> (m: EditorTextMutation)
    ensures
        (m.text@, m.caret_index as int) == spec_delete_forward(
            state.current_text@,
            clamped_caret(*state),
        ),
{
    let resolved = resolve_document_state(state);
    let current_caret = resolved.caret_index;
    let char_count = resolved.char_count();
    if current_caret >= char_count {
        return EditorTextMutation { text: resolved.current_text, caret_index: current_caret };
    }
    let next_chars = without_index(&resolved.mutation_chars, current_caret);
    let next_text = chars_to_text(next_chars);
    EditorTextMutation { text: next_text, caret_index: current_caret }
}

/// Backspace applied `n` times.
pub open spec fn backspace_times(text: Seq<char>, caret: int, n: nat) -> (Seq<char>, int)
    decreases n,
{
    if n == 0 {
        (text, caret)
    } else {
        let (t, c) = spec_delete_backward(text, caret);
        backspace_times(t, c, (n - 1) as nat)
    }
}

/// Typing a text and then pressing backspace once per typed character gives
/// back the text and the caret from before typing.
pub proof fn backspace_undoes_insert(text: Seq<char>, caret: int, inserted: Seq<char>)
    requires
        0 <= caret <= text.len(),
    ensures
        backspace_times(
            spec_insert(text, caret, inserted).0,
            spec_insert(text, caret, inserted).1,
            inserted.len(),
        ) == (text, caret),
    decreases inserted.len(),
{
    if inserted.len() > 0 {
        let shorter = inserted.drop_last();
        backspace_undoes_insert(text, caret, shorter);
        let full = spec_insert(text, caret, inserted);
        let after_one = spec_delete_backward(full.0, full.1);
        assert(after_one.0 =~= spec_insert(text, caret, shorter).0);
        assert(after_one.1 == spec_insert(text, caret, shorter).1);
        lemma_backspace_times_unfold(full.0, full.1, inserted.len());
    } else {
        assert(text.take(caret) + inserted + text.skip(caret) =~= text);
    }
}

proof fn lemma_backspace_times_unfold(text: Seq<char>, caret: int, n: nat)
    requires
        n > 0,
    ensures
        backspace_times(text, caret, n) == backspace_times(
            spec_delete_backward(text, caret).0,
            spec_delete_backward(text, caret).1,
            (n - 1) as nat,
        ),
{
}

/// Backspace at the start and delete at the end leave the text and caret as
/// they are; otherwise each removes exactly one character.
pub proof fn delete_boundaries(text: Seq<char>, caret: int)
    requires
        0 <= caret <= text.len(),
    ensures
        caret == 0 ==> spec_delete_backward(text, caret) == (text, caret),
        caret == text.len() ==> spec_delete_forward(text, caret) == (text, caret),
        caret > 0 ==> spec_delete_backward(text, caret).0.len() == text.len() - 1,
        caret < text.len() ==> spec_delete_forward(text, caret).0.len() == text.len() - 1,
{
}

} // verus!
