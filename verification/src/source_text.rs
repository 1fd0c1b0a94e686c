//! Restoring the word boundaries that PDF text extraction drops: a space is
//! inserted where punctuation runs into a word, before an opening parenthesis,
//! and before a few known compound words written in camel case.

use vstd::prelude::*;
use crate::chars::{
    ascii_alpha, ascii_digit, ascii_lower, ascii_upper, ascii_alnum, char_is_whitespace,
    collect_chars, is_ascii_alnum, is_ascii_alpha, is_ascii_digit_char, is_ascii_lower,
    is_ascii_upper, is_unicode_white_space, string_push,
};

verus! {

/// Full-width colon, comma, semicolon and parentheses.
pub const FULLWIDTH_COLON: char = '\u{FF1A}';

pub const FULLWIDTH_COMMA: char = '\u{FF0C}';

pub const FULLWIDTH_SEMICOLON: char = '\u{FF1B}';

pub const FULLWIDTH_LEFT_PAREN: char = '\u{FF08}';

pub const FULLWIDTH_RIGHT_PAREN: char = '\u{FF09}';

pub open spec fn is_separator_char(c: char) -> bool {
    c == ':' || c == FULLWIDTH_COLON || c == ',' || c == FULLWIDTH_COMMA || c == ';' || c
        == FULLWIDTH_SEMICOLON
}

pub open spec fn is_open_paren(c: char) -> bool {
    c == '(' || c == FULLWIDTH_LEFT_PAREN
}

pub open spec fn is_close_paren(c: char) -> bool {
    c == ')' || c == FULLWIDTH_RIGHT_PAREN
}

/// Whether a visual space belongs between two adjacent characters.
pub open spec fn spec_boundary_needs_visual_space(previous: char, next: char) -> bool {
    &&& !is_unicode_white_space(previous)
    &&& !is_unicode_white_space(next)
    &&& {
        ||| is_separator_char(previous)
        ||| is_close_paren(previous)
        ||| is_open_paren(next)
        ||| (is_ascii_lower(previous) && is_ascii_upper(next))
        ||| (is_ascii_digit_char(previous) && is_ascii_alpha(next))
    }
}

pub fn boundary_needs_visual_space(previous: char, next: char) -> (b: bool)
    ensures
        b == spec_boundary_needs_visual_space(previous, next),
{
    if char_is_whitespace(previous) || char_is_whitespace(next) {
        return false;
    }
    is_pdf_text_separator(previous) || previous == ')' || previous == FULLWIDTH_RIGHT_PAREN
        || next == '(' || next == FULLWIDTH_LEFT_PAREN || (ascii_lower(previous) && ascii_upper(
        next,
    )) || (ascii_digit(previous) && ascii_alpha(next))
}

pub fn is_ascii_word_char(ch: char) -> (b: bool)
    ensures
        b == is_ascii_alnum(ch),
{
    ascii_alnum(ch)
}

pub fn is_pdf_text_separator(ch: char) -> (b: bool)
    ensures
        b == is_separator_char(ch),
{
    ch == ':' || ch == FULLWIDTH_COLON || ch == ',' || ch == FULLWIDTH_COMMA || ch == ';' || ch
        == FULLWIDTH_SEMICOLON
}

/// The compound words before which a camel-case boundary gets a space.
pub open spec fn compact_word(k: int) -> Seq<char> {
    if k == 0 {
        seq!['F', 'r', 'a', 'm', 'e', 'w', 'o', 'r', 'k']
    } else if k == 1 {
        seq!['P', 'r', 'o', 'g', 'r', 'a', 'm']
    } else {
        seq!['L', 'i', 'b', 'r', 'a', 'r', 'y']
    }
}

/// `word` occurs in `chars` starting at `index`.
pub open spec fn word_at(chars: Seq<char>, index: int, word: Seq<char>) -> bool {
    &&& 0 <= index
    &&& index + word.len() <= chars.len()
    &&& chars.subrange(index, index + word.len()) == word
}

pub open spec fn spec_starts_with_compact_word_boundary(chars: Seq<char>, index: int) -> bool {
    word_at(chars, index, compact_word(0)) || word_at(chars, index, compact_word(1)) || word_at(
        chars,
        index,
        compact_word(2),
    )
}

fn compact_word_chars(k: usize) -> (w: Vec<char>)
    requires
        k < 3,
    ensures
        w@ == compact_word(k as int),
{
    let w = if k == 0 {
        vec!['F', 'r', 'a', 'm', 'e', 'w', 'o', 'r', 'k']
    } else if k == 1 {
        vec!['P', 'r', 'o', 'g', 'r', 'a', 'm']
    } else {
        vec!['L', 'i', 'b', 'r', 'a', 'r', 'y']
    };
    assert(w@ =~= compact_word(k as int));
    w
}

fn word_at_exec(chars: &[char], index: usize, word: &Vec<char>) -> (b: bool)
    ensures
        b == word_at(chars@, index as int, word@),
{
    if index > chars.len() || word.len() > chars.len() - index {
        return false;
    }
    let mut k: usize = 0;
    while k < word.len()
        invariant
            index + word.len() <= chars.len(),
            k <= word.len(),
            forall|j: int| 0 <= j < k ==> chars@[index + j] == word@[j],
        decreases word.len() - k,
    {
        if chars[index + k] != word[k] {
            assert(chars@.subrange(index as int, index + word.len())[k as int] != word@[k as int]);
            return false;
        }
        k = k + 1;
    }
    assert(chars@.subrange(index as int, index + word.len()) =~= word@);
    true
}

pub fn starts_with_compact_word_boundary(chars: &[char], index: usize) -> (b: bool)
    ensures
        b == spec_starts_with_compact_word_boundary(chars@, index as int),
{
    let mut k: usize = 0;
    while k < 3
        invariant
            k <= 3,
            forall|j: int| 0 <= j < k ==> !word_at(chars@, index as int, #[trigger] compact_word(j)),
        decreases 3 - k,
    {
        let w = compact_word_chars(k);
        if word_at_exec(chars, index, &w) {
            return true;
        }
        k = k + 1;
    }
    assert(!word_at(chars@, index as int, compact_word(0)));
    assert(!word_at(chars@, index as int, compact_word(1)));
    assert(!word_at(chars@, index as int, compact_word(2)));
    false
}

/// Whether a space belongs before `chars[index]` in compacted PDF text.
pub open spec fn spec_needs_compact_text_space(chars: Seq<char>, index: int) -> bool {
    let previous = chars[index - 1];
    let next = chars[index];
    &&& index > 0
    &&& !is_unicode_white_space(previous)
    &&& !is_unicode_white_space(next)
    &&& {
        ||| (is_separator_char(previous) && (is_ascii_alnum(next) || is_open_paren(next)))
        ||| (is_open_paren(next) && is_ascii_alnum(previous))
        ||| (is_ascii_lower(previous) && is_ascii_upper(next)
            && spec_starts_with_compact_word_boundary(chars, index))
    }
}

pub fn needs_compact_text_space(chars: &[char], index: usize) -> (b: bool)
    requires
        index == 0 || index < chars@.len(),
    ensures
        b == spec_needs_compact_text_space(chars@, index as int),
{
    if index == 0 {
        return false;
    }
    let previous = chars[index - 1];
    let next = chars[index];
    if char_is_whitespace(previous) || char_is_whitespace(next) {
        return false;
    }
    if is_pdf_text_separator(previous) && (is_ascii_word_char(next) || next == '(' || next
        == FULLWIDTH_LEFT_PAREN) {
        return true;
    }
    if (next == '(' || next == FULLWIDTH_LEFT_PAREN) && is_ascii_word_char(previous) {
        return true;
    }
    ascii_lower(previous) && ascii_upper(next) && starts_with_compact_word_boundary(chars, index)
}

/// The normalized text of the first `n` characters: each character, preceded
/// by a space where `spec_needs_compact_text_space` holds.
pub open spec fn normalized_prefix(chars: Seq<char>, n: int) -> Seq<char>
    decreases n,
{
    if n <= 0 {
        Seq::empty()
    } else {
        let before = normalized_prefix(chars, n - 1);
        if spec_needs_compact_text_space(chars, n - 1) {
            before.push(' ').push(chars[n - 1])
        } else {
            before.push(chars[n - 1])
        }
    }
}

pub open spec fn spec_normalize_compact_pdf_text(chars: Seq<char>) -> Seq<char> {
    normalized_prefix(chars, chars.len() as int)
}

/// Inserts the spaces that compacted PDF text lost (see
/// `spec_needs_compact_text_space`).
pub fn normalize_compact_pdf_text(text: &str) -> (normalized: String)
    ensures
        normalized@ == spec_normalize_compact_pdf_text(text@),
{
    let chars = collect_chars(text);
    let mut normalized = String::new();
    let mut index: usize = 0;
    while index < chars.len()
        invariant
            chars@ == text@,
            index <= chars.len(),
            normalized@ == normalized_prefix(chars@, index as int),
        decreases chars.len() - index,
    {
        if needs_compact_text_space(chars.as_slice(), index) {
            string_push(&mut normalized, ' ');
        }
        string_push(&mut normalized, chars[index]);
        index = index + 1;
    }
    normalized
}

/// Number of positions that get a space.
pub open spec fn inserted_space_count(chars: Seq<char>, n: int) -> int
    decreases n,
{
    if n <= 0 {
        0
    } else {
        inserted_space_count(chars, n - 1) + if spec_needs_compact_text_space(chars, n - 1) {
            1int
        } else {
            0int
        }
    }
}

/// Normalization inserts exactly one space per position that needs one and
/// keeps every character of the input.
pub proof fn normalize_length(chars: Seq<char>, n: int)
    requires
        0 <= n <= chars.len(),
    ensures
        normalized_prefix(chars, n).len() == n + inserted_space_count(chars, n),
    decreases n,
{
    if n > 0 {
        normalize_length(chars, n - 1);
    }
}

/// Text in which no boundary needs a space is left unchanged.
pub proof fn normalize_without_boundaries_is_identity(chars: Seq<char>, n: int)
    requires
        0 <= n <= chars.len(),
        forall|i: int| 0 <= i < n ==> !spec_needs_compact_text_space(chars, i),
    ensures
        normalized_prefix(chars, n) == chars.take(n),
    decreases n,
{
    if n > 0 {
        normalize_without_boundaries_is_identity(chars, n - 1);
        assert(chars.take(n - 1).push(chars[n - 1]) =~= chars.take(n));
    } else {
        assert(chars.take(0) =~= Seq::<char>::empty());
    }
}

/// Where `chars[i]` lands in the normalized text: after itself and the
/// spaces inserted up to and including the one before it.
pub open spec fn normalized_position(chars: Seq<char>, i: int) -> int {
    i + inserted_space_count(chars, i + 1)
}

proof fn lemma_normalized_prefix_extends(chars: Seq<char>, m: int, n: int)
    requires
        0 <= m <= n <= chars.len(),
    ensures
        normalized_prefix(chars, m).len() <= normalized_prefix(chars, n).len(),
        forall|k: int|
            0 <= k < normalized_prefix(chars, m).len() ==> #[trigger] normalized_prefix(
                chars,
                n,
            )[k] == normalized_prefix(chars, m)[k],
    decreases n,
{
    if m < n {
        lemma_normalized_prefix_extends(chars, m, n - 1);
    }
}

proof fn lemma_char_at_position(chars: Seq<char>, i: int, n: int)
    requires
        0 <= i < n <= chars.len(),
    ensures
        0 <= normalized_position(chars, i) < normalized_prefix(chars, n).len(),
        normalized_prefix(chars, n)[normalized_position(chars, i)] == chars[i],
        spec_needs_compact_text_space(chars, i) ==> normalized_position(chars, i) >= 1
            && normalized_prefix(chars, n)[normalized_position(chars, i) - 1] == ' ',
{
    normalize_length(chars, i + 1);
    normalize_length(chars, i);
    lemma_space_count_nonnegative(chars, i);
    lemma_normalized_prefix_extends(chars, i + 1, n);
    let q = normalized_position(chars, i);
    let prefix = normalized_prefix(chars, i + 1);
    assert(prefix.len() == q + 1);
    assert(prefix[q] == chars[i]);
    assert(normalized_prefix(chars, n)[q] == prefix[q]);
    if spec_needs_compact_text_space(chars, i) {
        assert(prefix[q - 1] == ' ');
        assert(normalized_prefix(chars, n)[q - 1] == prefix[q - 1]);
    }
}

proof fn lemma_space_count_nonnegative(chars: Seq<char>, n: int)
    ensures
        inserted_space_count(chars, n) >= 0,
    decreases n,
{
    if n > 0 {
        lemma_space_count_nonnegative(chars, n - 1);
    }
}

/// Every position of the normalized text holds a character of the input or
/// the space inserted before one.
proof fn lemma_position_source(chars: Seq<char>, n: int, j: int) -> (i: int)
    requires
        0 <= n <= chars.len(),
        0 <= j < normalized_prefix(chars, n).len(),
    ensures
        0 <= i < n,
        j == normalized_position(chars, i) || (spec_needs_compact_text_space(chars, i) && j
            == normalized_position(chars, i) - 1),
    decreases n,
{
    normalize_length(chars, n);
    if n > 0 {
        normalize_length(chars, n - 1);
    }
    if n > 0 && j < normalized_prefix(chars, n - 1).len() {
        lemma_position_source(chars, n - 1, j)
    } else {
        n - 1
    }
}

proof fn lemma_word_walk(chars: Seq<char>, i: int, word: Seq<char>, k: int)
    requires
        0 <= i < chars.len(),
        0 <= k < word.len(),
        forall|t: int| 0 <= t < word.len() ==> word[t] != ' ',
        word_at(spec_normalize_compact_pdf_text(chars), normalized_position(chars, i), word),
    ensures
        i + k < chars.len(),
        normalized_position(chars, i + k) == normalized_position(chars, i) + k,
        forall|t: int| 0 <= t <= k ==> chars[i + t] == word[t],
    decreases k,
{
    let normalized = spec_normalize_compact_pdf_text(chars);
    let n = chars.len() as int;
    let q = normalized_position(chars, i);
    assert(normalized.subrange(q, q + word.len())[k] == normalized[q + k]);
    if k == 0 {
        lemma_char_at_position(chars, i, n);
    } else {
        lemma_word_walk(chars, i, word, k - 1);
        normalize_length(chars, n);
        if i + k == n {
            assert(normalized_position(chars, n - 1) + 1 == normalized.len());
            assert(false);
        }
        lemma_char_at_position(chars, i + k, n);
        if spec_needs_compact_text_space(chars, i + k) {
            assert(normalized[q + k] == ' ');
            assert(false);
        }
        assert(chars[i + k] == word[k]);
    }
}

/// A word without spaces found at the position of `chars[i]` in the
/// normalized text stands at `i` in `chars` too.
proof fn lemma_word_at_position(chars: Seq<char>, i: int, word: Seq<char>)
    requires
        0 <= i < chars.len(),
        word.len() >= 1,
        forall|k: int| 0 <= k < word.len() ==> word[k] != ' ',
        word_at(spec_normalize_compact_pdf_text(chars), normalized_position(chars, i), word),
    ensures
        word_at(chars, i, word),
{
    lemma_word_walk(chars, i, word, word.len() - 1);
    assert(chars.subrange(i, i + word.len()) =~= word);
}

proof fn lemma_compact_words_have_no_space(w: int)
    ensures
        forall|k: int| 0 <= k < compact_word(w).len() ==> compact_word(w)[k] != ' ',
        compact_word(w).len() >= 1,
{
}

/// Normalizing text that was already normalized changes nothing: no
/// position of a normalized text needs another space.
pub proof fn normalize_is_idempotent(chars: Seq<char>)
    ensures
        spec_normalize_compact_pdf_text(spec_normalize_compact_pdf_text(chars))
            == spec_normalize_compact_pdf_text(chars),
{
    let normalized = spec_normalize_compact_pdf_text(chars);
    let n = chars.len() as int;
    assert forall|j: int| 0 <= j < normalized.len() implies !spec_needs_compact_text_space(
        normalized,
        j,
    ) by {
        let i = lemma_position_source(chars, n, j);
        lemma_char_at_position(chars, i, n);
        if j == normalized_position(chars, i) - 1 && spec_needs_compact_text_space(chars, i) {
            assert(is_unicode_white_space(normalized[j]));
        } else if spec_needs_compact_text_space(chars, i) {
            assert(is_unicode_white_space(normalized[j - 1]));
        } else if i > 0 {
            lemma_char_at_position(chars, i - 1, n);
            assert(normalized[j - 1] == chars[i - 1]);
            if spec_starts_with_compact_word_boundary(normalized, j) {
                lemma_compact_words_have_no_space(0);
                lemma_compact_words_have_no_space(1);
                lemma_compact_words_have_no_space(2);
                if word_at(normalized, j, compact_word(0)) {
                    lemma_word_at_position(chars, i, compact_word(0));
                } else if word_at(normalized, j, compact_word(1)) {
                    lemma_word_at_position(chars, i, compact_word(1));
                } else {
                    lemma_word_at_position(chars, i, compact_word(2));
                }
            }
        } else {
            assert(j == 0);
        }
    }
    normalize_without_boundaries_is_identity(normalized, normalized.len() as int);
    assert(normalized.take(normalized.len() as int) =~= normalized);
}

/// One of the separators after which compacted text lost a space: ASCII and
/// full-width colon, comma and semicolon.
pub open spec fn lost_space_separator(c: char) -> bool {
    c == ':' || c == '\u{FF1A}' || c == ',' || c == '\u{FF0C}' || c == ';' || c == '\u{FF1B}'
}

pub open spec fn ascii_letter_or_digit(c: char) -> bool {
    ('a' <= c && c <= 'z') || ('A' <= c && c <= 'Z') || ('0' <= c && c <= '9')
}

pub open spec fn opening_paren(c: char) -> bool {
    c == '(' || c == '\u{FF08}'
}

/// One of the compound words before which a lower-to-upper case change gets
/// a space starts at `i`.
pub open spec fn compound_word_at(chars: Seq<char>, i: int) -> bool {
    ||| (i + 9 <= chars.len() && chars.subrange(i, i + 9) == seq![
        'F',
        'r',
        'a',
        'm',
        'e',
        'w',
        'o',
        'r',
        'k',
    ])
    ||| (i + 7 <= chars.len() && chars.subrange(i, i + 7) == seq!['P', 'r', 'o', 'g', 'r', 'a', 'm'])
    ||| (i + 7 <= chars.len() && chars.subrange(i, i + 7) == seq!['L', 'i', 'b', 'r', 'a', 'r', 'y'])
}

/// The word boundaries that compacted PDF text lost between `chars[i - 1]`
/// and `chars[i]`: a separator before an ASCII letter, digit or opening
/// parenthesis; an ASCII letter or digit before an opening parenthesis; a
/// lower-case letter before an upper-case one that starts a compound word.
pub open spec fn lost_word_boundary(chars: Seq<char>, i: int) -> bool {
    let previous = chars[i - 1];
    let next = chars[i];
    ||| lost_space_separator(previous) && (ascii_letter_or_digit(next) || opening_paren(next))
    ||| opening_paren(next) && ascii_letter_or_digit(previous)
    ||| ('a' <= previous && previous <= 'z') && ('A' <= next && next <= 'Z') && compound_word_at(chars, i)
}

proof fn lemma_needs_space_is_lost_boundary(chars: Seq<char>, i: int)
    requires
        0 < i < chars.len(),
    ensures
        spec_needs_compact_text_space(chars, i) == lost_word_boundary(chars, i),
{
    assert(compact_word(0) == seq!['F', 'r', 'a', 'm', 'e', 'w', 'o', 'r', 'k']);
    assert(compact_word(1) == seq!['P', 'r', 'o', 'g', 'r', 'a', 'm']);
    assert(compact_word(2) == seq!['L', 'i', 'b', 'r', 'a', 'r', 'y']);
}

/// Normalization keeps every character and puts exactly one space back into
/// every lost word boundary and nowhere else: in the normalized text the
/// first character comes first, and each later character `chars[i]` follows
/// `chars[i - 1]` directly, or with one space between them exactly where
/// `lost_word_boundary(chars, i)` holds.
pub proof fn normalize_restores_lost_word_boundaries(chars: Seq<char>, i: int)
    requires
        0 <= i < chars.len(),
    ensures
        ({
            let normalized = spec_normalize_compact_pdf_text(chars);
            let q = normalized_position(chars, i);
            &&& 0 <= q < normalized.len()
            &&& normalized[q] == chars[i]
            &&& i == 0 ==> q == 0
            &&& i > 0 && lost_word_boundary(chars, i) ==> q >= 2 && normalized[q - 1] == ' '
                && normalized[q - 2] == chars[i - 1] && normalized_position(chars, i - 1) == q - 2
            &&& i > 0 && !lost_word_boundary(chars, i) ==> q >= 1 && normalized[q - 1]
                == chars[i - 1] && normalized_position(chars, i - 1) == q - 1
        }),
{
    let n = chars.len() as int;
    lemma_char_at_position(chars, i, n);
    if i > 0 {
        lemma_needs_space_is_lost_boundary(chars, i);
        lemma_char_at_position(chars, i - 1, n);
    }
}

} // verus!
