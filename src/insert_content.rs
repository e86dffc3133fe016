//! Inserting a block of text before a given line, or at the end of a file.
use vstd::prelude::*;
use vstd::utf8::encode_utf8;
use crate::error::EditError;
use crate::render::{create_diff_output, preview_text};
use crate::text::{
    chars_of, lemma_line_offset_agree, lemma_line_offset_bounds, lemma_newline_count_concat,
    line_start, line_start_offset, newline_count, splice, splice_chars, string_of,
};

verus! {

/// A request to insert `content` into the file at `path` before line `line`
/// (1-based), or at its end when `line` is 0.
pub struct InsertContentTool {
    /// The path of the file to modify.
    pub path: String,
    /// The line before which the content goes (1-based); 0 appends at the end.
    pub line: u64,
    /// The content to insert.
    pub content: String,
}

/// Largest file, in bytes, that is edited as a whole in memory.
pub const IN_MEMORY_LIMIT: u64 = 50 * 1024 * 1024;

/// The content after inserting `text` before line `line` (1-based).
pub open spec fn inserted_before_line(content: Seq<char>, line: nat, text: Seq<char>) -> Seq<char> {
    let o = line_start(content, (line - 1) as nat);
    splice(content, o, o, text)
}

/// Size of `s` in UTF-8 bytes.
pub open spec fn byte_len(s: Seq<char>) -> nat {
    encode_utf8(s).len()
}

/// An insertion before a line is refused when it would more than double the
/// size in bytes.
pub open spec fn insertion_too_large(content_bytes: nat, text_bytes: nat) -> bool {
    content_bytes + text_bytes > 2 * content_bytes
}

impl InsertContentTool {
    /// Whether a file of `file_size` bytes may be edited in memory.
    pub fn check_file_size(file_size: u64) -> (r: Result<(), EditError>)
        ensures
            file_size <= IN_MEMORY_LIMIT ==> r == Ok::<(), EditError>(()),
            file_size > IN_MEMORY_LIMIT ==> r == Err::<(), EditError>(
                EditError::FileTooLargeForInMemoryEdit,
            ),
    {
        if file_size > IN_MEMORY_LIMIT {
            Err(EditError::FileTooLargeForInMemoryEdit)
        } else {
            Ok(())
        }
    }

    /// Inserts `content_to_insert` into `content`: at the end when
    /// `line_number` is 0, otherwise at the start of line `line_number`
    /// (after its `line_number - 1` predecessors' newlines), or at the end when
    /// the content has fewer lines.
    pub fn insert_content_at_line(
        content: &str,
        line_number: u64,
        content_to_insert: &str,
    ) -> (r: Result<String, EditError>)
        ensures
            line_number == 0 ==> (r matches Ok(t) && t@ == content@ + content_to_insert@),
            line_number > 0 && insertion_too_large(
                byte_len(content@),
                byte_len(content_to_insert@),
            ) ==> r == Err::<String, EditError>(EditError::SuspiciousResultSize),
            line_number > 0 && !insertion_too_large(
                byte_len(content@),
                byte_len(content_to_insert@),
            ) ==> (r matches Ok(t) && t@ == inserted_before_line(
                content@,
                line_number as nat,
                content_to_insert@,
            )),
    {
        let text = chars_of(content);
        let block = chars_of(content_to_insert);
        if line_number == 0 {
            let mut out = text;
            out.extend_from_slice(block.as_slice());
            return Ok(string_of(out.as_slice()));
        }
        if content_to_insert.as_bytes().len() > content.as_bytes().len() {
            return Err(EditError::SuspiciousResultSize);
        }
        let o = line_start_offset(text.as_slice(), (line_number - 1) as u128);
        let out = splice_chars(text.as_slice(), o, o, block.as_slice());
        Ok(string_of(out.as_slice()))
    }

    /// The preview of replacing `original` by `modified` in the file at `file_path`.
    pub fn create_diff_output(original: &str, modified: &str, file_path: &str) -> (r: String)
        ensures
            r@ == preview_text(original@, modified@, file_path@),
    {
        create_diff_output(original, modified, file_path)
    }
}

/// Inserting before line `line`, where that line exists, adds exactly the
/// newlines of the inserted text, and line `line` of the result begins with the
/// inserted text (hence with its first line).
pub proof fn lemma_insert_before_line(content: Seq<char>, line: nat, text: Seq<char>)
    requires
        line >= 1,
        line - 1 <= newline_count(content),
    ensures
        newline_count(inserted_before_line(content, line, text)) == newline_count(content)
            + newline_count(text),
        line_start(inserted_before_line(content, line, text), (line - 1) as nat) == line_start(
            content,
            (line - 1) as nat,
        ),
        ({
            let o = line_start(content, (line - 1) as nat);
            inserted_before_line(content, line, text).subrange(o, o + text.len()) == text
        }),
{
    let n = (line - 1) as nat;
    let o = line_start(content, n);
    let t = inserted_before_line(content, line, text);
    lemma_line_offset_bounds(content, 0, n);
    let a = content.subrange(0, o);
    let b = content.subrange(o, content.len() as int);
    assert(content =~= a + b);
    assert(t =~= a + text + b);
    lemma_newline_count_concat(a, b);
    lemma_newline_count_concat(a, text);
    lemma_newline_count_concat(a + text, b);
    assert(content.subrange(0, content.len() as int) =~= content);
    assert(t.subrange(0, o) =~= content.subrange(0, o));
    lemma_line_offset_agree(content, t, 0, n);
    assert(t.subrange(o, o + text.len()) =~= text);
}

} // verus!
