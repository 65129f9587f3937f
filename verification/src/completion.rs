//! Autocomplete responses and their offset translation.
//!
//! The client supplies the cursor as a count of Unicode characters and
//! expects the insertion position back in the same unit, while the analysis
//! layer works in byte offsets into the UTF-8 text. Both translations are
//! mandatory: a mismatch corrupts cursor placement for any multi-byte
//! character.

use vstd::prelude::*;
use crate::text::{char_count, count_chars_range, byte_offset_of_char, is_char_start};

verus! {

/// Kind of a completion suggestion; a closed local mirror of the richer
/// upstream classification.
#[derive(Clone, Copy, Debug, PartialEq, Eq, Structural)]
pub enum TypstCompletionKind {
    Syntax,
    Function,
    Parameter,
    Constant,
    Symbol,
    Type,
}

/// One completion suggestion.
#[derive(Debug)]
pub struct TypstCompletion {
    pub kind: TypstCompletionKind,
    pub label: String,
    pub apply: Option<String>,
    pub detail: Option<String>,
}

/// Answer to an autocomplete request: the insertion position as a character
/// count, and the suggestions.
#[derive(Debug)]
pub struct TypstCompleteResponse {
    pub offset: usize,
    pub completions: Vec<TypstCompletion>,
}

/// Translates the client's cursor — a character count into `content` — to
/// the byte offset the analysis layer needs: the offset where that
/// character begins, or the end of the text when the count is past the last
/// character.
pub fn cursor_byte_offset(content: &Vec<u8>, cursor_chars: usize) -> (r: usize)
    ensures
        cursor_chars < char_count(content@) ==> r < content@.len() && is_char_start(
            content@[r as int],
        ) && char_count(content@.take(r as int)) == cursor_chars,
        cursor_chars >= char_count(content@) ==> r == content@.len(),
{
    byte_offset_of_char(content, cursor_chars)
}

/// Builds the response from what the suggestion pass returned: the byte
/// offset where the insertion starts is translated back to a character
/// count; the suggestions are passed through unchanged.
pub fn finish_autocomplete(
    content: &Vec<u8>,
    completed_byte_offset: usize,
    completions: Vec<TypstCompletion>,
) -> (r: TypstCompleteResponse)
    requires
        completed_byte_offset <= content@.len(),
    ensures
        r.offset == char_count(content@.take(completed_byte_offset as int)),
        r.completions == completions,
{
    let offset = count_chars_range(content, 0, completed_byte_offset);
    proof {
        assert(content@.subrange(0, completed_byte_offset as int) =~= content@.take(
            completed_byte_offset as int,
        ));
    }
    TypstCompleteResponse { offset, completions }
}

} // verus!
