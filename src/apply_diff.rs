//! Replacing a located region of a file: the SEARCH/REPLACE diff-block grammar
//! and the splice of its replacement into the file content.
use vstd::prelude::*;
use crate::error::{DiffFormatProblem, EditError};
use crate::render::{create_diff_output, preview_text};
use crate::text::{
    chars_of, find_chars, find_from, occurs_at, first_match, join, join_lines, lines_of, splice, splice_chars, split_lines,
    string_of, trim, trimmed_equals, view_lines,
};
use vstd::slice::slice_subrange;
use vstd::utf8::encode_utf8;

verus! {

/// The search/replace block and the line its search text is declared to start at.
pub struct DiffContent {
    /// The search/replace block defining the changes.
    pub content: String,
    /// The line number of original content where the search block starts.
    /// It is advisory: the region is located by search alone.
    pub start_line: u64,
}

/// A request to replace, in the file at `path`, the first occurrence of the
/// search text of `diff` by its replacement text.
pub struct ApplyDiffTool {
    /// The path of the file to modify.
    pub path: String,
    /// The diff to apply to the file.
    pub diff: DiffContent,
}

pub open spec fn header_marker() -> Seq<char> {
    "<<<<<<< SEARCH"@
}

pub open spec fn footer_marker() -> Seq<char> {
    ">>>>>>> REPLACE"@
}

pub open spec fn search_marker() -> Seq<char> {
    "-------"@
}

pub open spec fn replace_marker() -> Seq<char> {
    "======="@
}

/// The index of the first line at or after `from` whose trimmed text is `m`,
/// or `lines.len()` if there is none.
pub open spec fn first_marker(lines: Seq<Seq<char>>, m: Seq<char>, from: int) -> int
    decreases lines.len() - from,
{
    if from < 0 || from >= lines.len() {
        lines.len() as int
    } else if trim(lines[from]) == m {
        from
    } else {
        first_marker(lines, m, from + 1)
    }
}

/// The search and replacement text of a diff block, or the rule it breaks.
pub open spec fn parse_diff(text: Seq<char>) -> Result<(Seq<char>, Seq<char>), DiffFormatProblem> {
    let lines = lines_of(text);
    let n = lines.len() as int;
    if n < 6 {
        Err(DiffFormatProblem::TooShort)
    } else if trim(lines[0]) != header_marker() {
        Err(DiffFormatProblem::MissingHeader)
    } else if trim(lines[n - 1]) != footer_marker() {
        Err(DiffFormatProblem::MissingFooter)
    } else {
        let a = first_marker(lines, search_marker(), 0);
        if a >= n {
            Err(DiffFormatProblem::MissingSearchSeparator)
        } else {
            let b = first_marker(lines, replace_marker(), a + 1);
            if b >= n {
                Err(DiffFormatProblem::MissingReplaceSeparator)
            } else {
                Ok(
                    (
                        join(lines.subrange(a + 1, b), "\n"@),
                        join(lines.subrange(b + 1, n - 1), "\n"@),
                    ),
                )
            }
        }
    }
}

/// The content after replacing the first occurrence of `search` by `replace`.
pub open spec fn apply_diff_result(content: Seq<char>, search: Seq<char>, replace: Seq<char>) -> Option<
    Seq<char>,
> {
    match first_match(content, search) {
        Some(p) => Some(splice(content, p, p + search.len(), replace)),
        None => None,
    }
}

/// The index of the first line at or after `from` whose trimmed text is `m`.
fn first_marker_index(lines: &Vec<Vec<char>>, m: &[char], from: usize) -> (r: usize)
    requires
        from <= lines.len(),
    ensures
        r as int == first_marker(view_lines(lines@), m@, from as int),
        from <= r <= lines.len(),
        r < lines.len() ==> trim(lines@[r as int]@) == m@,
{
    let mut i: usize = from;
    while i < lines.len()
        invariant
            from <= i <= lines.len(),
            first_marker(view_lines(lines@), m@, i as int) == first_marker(
                view_lines(lines@),
                m@,
                from as int,
            ),
        decreases lines.len() - i,
    {
        if trimmed_equals(lines[i].as_slice(), m) {
            return i;
        }
        i = i + 1;
    }
    i
}

/// The UTF-8 bytes of a concatenation are those of its parts.
pub proof fn lemma_encode_utf8_concat(a: Seq<char>, b: Seq<char>)
    ensures
        encode_utf8(a + b) == encode_utf8(a) + encode_utf8(b),
    decreases a.len(),
{
    if a.len() == 0 {
        assert(a + b =~= b);
        assert(encode_utf8(a) + encode_utf8(b) =~= encode_utf8(b));
    } else {
        assert((a + b).drop_first() =~= a.drop_first() + b);
        assert((a + b)[0] == a[0]);
        lemma_encode_utf8_concat(a.drop_first(), b);
        assert(encode_utf8(a + b) =~= encode_utf8(a) + encode_utf8(b));
    }
}

/// Applying a diff block changes no byte of the file outside the matched
/// region: the bytes before the match and the bytes after it stay as they were.
pub proof fn lemma_apply_diff_preserves_bytes(content: Seq<char>, search: Seq<char>, replace: Seq<char>)
    requires
        first_match(content, search) is Some,
    ensures
        ({
            let p = first_match(content, search)->0;
            let before = encode_utf8(content);
            let after = encode_utf8(apply_diff_result(content, search, replace)->0);
            let start = encode_utf8(content.subrange(0, p)).len() as int;
            &&& after.subrange(0, start) == before.subrange(0, start)
            &&& after.subrange(start + encode_utf8(replace).len(), after.len() as int)
                == before.subrange(start + encode_utf8(search).len(), before.len() as int)
        }),
{
    let p = first_match(content, search)->0;
    lemma_first_match_occurs(content, search, 0);
    let a = content.subrange(0, p);
    let m = content.subrange(p, p + search.len());
    let z = content.subrange(p + search.len(), content.len() as int);
    assert(content =~= a + m + z);
    let out = apply_diff_result(content, search, replace)->0;
    assert(out =~= a + replace + z);
    lemma_encode_utf8_concat(a, m);
    lemma_encode_utf8_concat(a + m, z);
    lemma_encode_utf8_concat(a, replace);
    lemma_encode_utf8_concat(a + replace, z);
    let start = encode_utf8(a).len() as int;
    let before = encode_utf8(content);
    let after = encode_utf8(out);
    assert(after.subrange(0, start) =~= before.subrange(0, start));
    assert(after.subrange(start + encode_utf8(replace).len(), after.len() as int)
        =~= before.subrange(start + encode_utf8(search).len(), before.len() as int));
}

/// A found match lies within the text.
proof fn lemma_first_match_occurs(s: Seq<char>, p: Seq<char>, i: int)
    requires
        find_from(s, p, i) is Some,
    ensures
        occurs_at(s, p, find_from(s, p, i)->0),
    decreases s.len() + 1 - i,
{
    if !(i < 0 || i + p.len() > s.len()) && !occurs_at(s, p, i) {
        lemma_first_match_occurs(s, p, i + 1);
    }
}

impl ApplyDiffTool {
    /// Splits a diff block into its search text and its replacement text.
    ///
    /// The block is a sequence of lines: `<<<<<<< SEARCH`, any lines, `-------`,
    /// the search lines, `=======`, the replacement lines, `>>>>>>> REPLACE`.
    /// Markers are compared after trimming white space; the lines of each part
    /// are joined with `\n`.
    pub fn parse_diff_content(diff_content: &str) -> (r: Result<(String, String), EditError>)
        ensures
            match parse_diff(diff_content@) {
                Ok((search, replace)) => r matches Ok((s, t)) && s@ == search && t@ == replace,
                Err(problem) => r == Err::<(String, String), EditError>(
                    EditError::MalformedDiff(problem),
                ),
            },
    {
        let text = chars_of(diff_content);
        let lines = split_lines(text.as_slice());
        let ghost ls = view_lines(lines@);
        let n = lines.len();
        if n < 6 {
            return Err(EditError::MalformedDiff(DiffFormatProblem::TooShort));
        }
        let header = chars_of("<<<<<<< SEARCH");
        if !trimmed_equals(lines[0].as_slice(), header.as_slice()) {
            return Err(EditError::MalformedDiff(DiffFormatProblem::MissingHeader));
        }
        let footer = chars_of(">>>>>>> REPLACE");
        if !trimmed_equals(lines[n - 1].as_slice(), footer.as_slice()) {
            return Err(EditError::MalformedDiff(DiffFormatProblem::MissingFooter));
        }
        let search_sep = chars_of("-------");
        let a = first_marker_index(&lines, search_sep.as_slice(), 0);
        if a >= n {
            return Err(EditError::MalformedDiff(DiffFormatProblem::MissingSearchSeparator));
        }
        let replace_sep = chars_of("=======");
        let b = first_marker_index(&lines, replace_sep.as_slice(), a + 1);
        if b >= n {
            return Err(EditError::MalformedDiff(DiffFormatProblem::MissingReplaceSeparator));
        }
        if b == n - 1 {
            // The last line is the footer, which is not a separator.
            proof {
                reveal_strlit(">>>>>>> REPLACE");
                reveal_strlit("=======");
                assert(ls[n - 1] == lines@[n - 1]@);
                assert(trim(ls[n - 1]) == footer_marker());
                assert(trim(ls[n - 1]) == replace_marker());
                assert(footer_marker().len() != replace_marker().len());
            }
            return Err(EditError::MalformedDiff(DiffFormatProblem::MissingReplaceSeparator));
        }
        let newline = chars_of("\n");
        let search = join_lines(slice_subrange(lines.as_slice(), a + 1, b), newline.as_slice());
        let replace = join_lines(slice_subrange(lines.as_slice(), b + 1, n - 1), newline.as_slice());
        assert(view_lines(lines@.subrange(a + 1, b as int)) =~= ls.subrange(a + 1, b as int));
        assert(view_lines(lines@.subrange(b + 1, n - 1)) =~= ls.subrange(b + 1, n - 1));
        Ok((string_of(search.as_slice()), string_of(replace.as_slice())))
    }

    /// Replaces the first occurrence of `old_content` in `content` by
    /// `new_content`. The declared start line is not consulted.
    pub fn apply_diff_to_content(
        content: &str,
        old_content: &str,
        new_content: &str,
        _start_line: u64,
    ) -> (r: Result<String, EditError>)
        ensures
            match apply_diff_result(content@, old_content@, new_content@) {
                Some(t) => r matches Ok(s) && s@ == t,
                None => r == Err::<String, EditError>(EditError::ContentNotFound),
            },
            r matches Ok(s) ==> {
                let p = first_match(content@, old_content@)->0;
                &&& s@.subrange(0, p) == content@.subrange(0, p)
                &&& s@.subrange(p, p + new_content@.len()) == new_content@
                &&& s@.subrange(p + new_content@.len(), s@.len() as int) == content@.subrange(
                    p + old_content@.len(),
                    content@.len() as int,
                )
            },
    {
        let text = chars_of(content);
        let search = chars_of(old_content);
        let replace = chars_of(new_content);
        match find_chars(text.as_slice(), search.as_slice()) {
            Some(pos) => {
                assert(occurs_at(text@, search@, pos as int));
                assert(pos + search@.len() <= text@.len());
                assert(pos + search.len() <= text.len());
                let out = splice_chars(text.as_slice(), pos, pos + search.len(), replace.as_slice());
                let ghost p = pos as int;
                assert(out@.subrange(0, p) =~= content@.subrange(0, p));
                assert(out@.subrange(p, p + new_content@.len()) =~= new_content@);
                assert(out@.subrange(p + new_content@.len(), out@.len() as int) =~= content@.subrange(
                    p + old_content@.len(),
                    content@.len() as int,
                ));
                Ok(string_of(out.as_slice()))
            },
            None => Err(EditError::ContentNotFound),
        }
    }

    /// The preview of replacing `original` by `modified` in the file at `file_path`.
    pub fn create_diff_output(original: &str, modified: &str, file_path: &str) -> (r: String)
        ensures
            r@ == preview_text(original@, modified@, file_path@),
    {
        create_diff_output(original, modified, file_path)
    }
}

} // verus!
