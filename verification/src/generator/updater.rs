//! Inserting a line of code just above a marker comment.
//!
//! Reading and writing the file are the caller's business; this module
//! decides what the file's new text is.
use vstd::prelude::*;

use crate::text::{
    chars_of, contains_chars, contains_seq, extend_chars, lemma_contains_concat,
    lemma_contains_self, lemma_contains_trans, lemma_contains_trim,
    lemma_replace_all_contains_replacement, lemma_replace_all_keeps_prefix,
    lemma_replace_all_without_occurrence, occurs_at, replace_all, replace_all_chars, string_of,
    trim, trim_chars,
};

verus! {

/// What an insertion does to a file's text.
#[derive(Debug, Clone, PartialEq, Eq)]
pub enum MarkerUpdate {
    /// The line (trimmed) is already in the text: nothing changes.
    AlreadyPresent,
    /// The new text of the file.
    Updated(String),
}

/// Why an insertion cannot be made.
#[derive(PartialEq, Eq, Structural, Debug, Clone, Copy)]
pub enum UpdateError {
    /// The marker does not occur in the text.
    MarkerNotFound,
}

/// The text that replaces each occurrence of the marker: the new line, a
/// line break, and the marker again.
pub open spec fn marked_line(marker: Seq<char>, new_line: Seq<char>) -> Seq<char> {
    new_line + seq!['\n'] + marker
}

/// The text after `new_line` has been placed above every occurrence of `marker`.
pub open spec fn inserted_text(content: Seq<char>, marker: Seq<char>, new_line: Seq<char>) -> Seq<char> {
    replace_all(content, marker, marked_line(marker, new_line))
}

/// Insert `new_line` on the line above every occurrence of `marker` in
/// `content`, keeping the marker for later insertions.
///
/// Nothing changes when the trimmed line already occurs in the text; when the
/// marker does not occur the insertion is refused.
pub fn insert_at_marker(content: &str, marker: &str, new_line: &str) -> (r: Result<MarkerUpdate, UpdateError>)
    ensures
        contains_seq(content@, trim(new_line@)) ==> r matches Ok(MarkerUpdate::AlreadyPresent),
        !contains_seq(content@, trim(new_line@)) && !contains_seq(content@, marker@)
            ==> r == Err::<MarkerUpdate, UpdateError>(UpdateError::MarkerNotFound),
        !contains_seq(content@, trim(new_line@)) && contains_seq(content@, marker@)
            ==> (r matches Ok(MarkerUpdate::Updated(text)) && text@ == inserted_text(content@, marker@, new_line@)),
{
    let content_chars = chars_of(content);
    let line_chars = chars_of(new_line);
    let trimmed = trim_chars(line_chars.as_slice());
    if contains_chars(content_chars.as_slice(), trimmed.as_slice()) {
        return Ok(MarkerUpdate::AlreadyPresent);
    }
    let marker_chars = chars_of(marker);
    if !contains_chars(content_chars.as_slice(), marker_chars.as_slice()) {
        return Err(UpdateError::MarkerNotFound);
    }
    let mut replacement = line_chars;
    replacement.push('\n');
    extend_chars(&mut replacement, marker_chars.as_slice());
    assert(replacement@ =~= marked_line(marker@, new_line@));
    let updated = replace_all_chars(content_chars.as_slice(), marker_chars.as_slice(), replacement.as_slice());
    Ok(MarkerUpdate::Updated(string_of(updated.as_slice())))
}

/// After an insertion the new line, directly followed by the marker, occurs in
/// the text: the line sits just above a marker, and the marker survives for the
/// next insertion.
pub proof fn lemma_insertion_keeps_marker(content: Seq<char>, marker: Seq<char>, new_line: Seq<char>)
    requires
        contains_seq(content, marker),
    ensures
        contains_seq(inserted_text(content, marker, new_line), marked_line(marker, new_line)),
        contains_seq(inserted_text(content, marker, new_line), new_line),
        contains_seq(inserted_text(content, marker, new_line), marker),
{
    let rep = marked_line(marker, new_line);
    lemma_replace_all_contains_replacement(content, marker, rep);
    lemma_contains_self(new_line);
    lemma_contains_concat(Seq::empty(), new_line, seq!['\n'] + marker, new_line);
    assert(new_line + (seq!['\n'] + marker) =~= rep);
    lemma_contains_trans(inserted_text(content, marker, new_line), rep, new_line);
    lemma_contains_self(marker);
    lemma_contains_concat(new_line + seq!['\n'], marker, Seq::empty(), marker);
    lemma_contains_trans(inserted_text(content, marker, new_line), rep, marker);
}

/// Inserting is idempotent: once a line has been inserted, inserting it again
/// finds it already present and changes nothing.
pub proof fn lemma_insertion_is_idempotent(content: Seq<char>, marker: Seq<char>, new_line: Seq<char>)
    requires
        contains_seq(content, marker),
    ensures
        contains_seq(inserted_text(content, marker, new_line), trim(new_line)),
{
    lemma_insertion_keeps_marker(content, marker, new_line);
    lemma_contains_trim(new_line);
    lemma_contains_trans(inserted_text(content, marker, new_line), new_line, trim(new_line));
}


/// With a single marker in the file, the insertion puts the new line directly
/// above it and keeps every other character: the text before the marker and the
/// whole text after it are unchanged.
pub proof fn lemma_insertion_single_marker(before: Seq<char>, marker: Seq<char>, after: Seq<char>, new_line: Seq<char>)
    requires
        marker.len() > 0,
        forall|j: int| 0 <= j < before.len() ==> !occurs_at(before + marker + after, marker, j),
        !contains_seq(after, marker),
    ensures
        inserted_text(before + marker + after, marker, new_line) == before + new_line + seq!['\n'] + marker + after,
{
    let s = before + marker + after;
    let rep = marked_line(marker, new_line);
    lemma_replace_all_keeps_prefix(s, marker, rep, before.len() as int);
    let rest = s.skip(before.len() as int);
    assert(rest =~= marker + after);
    assert(s.take(before.len() as int) =~= before);
    assert(rest.take(marker.len() as int) =~= marker);
    assert(rest.skip(marker.len() as int) =~= after);
    lemma_replace_all_without_occurrence(after, marker, rep);
    assert(replace_all(rest, marker, rep) == rep + after);
    assert(before + (rep + after) =~= before + new_line + seq!['\n'] + marker + after);
}

} // verus!
