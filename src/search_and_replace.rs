//! Literal or pattern-based search and replace, optionally restricted to a
//! range of lines, applied as an ordered list of operations.
use vstd::prelude::*;
use crate::error::EditError;
use crate::text::{
    lemma_replace_round_trip,
    chars_of, count_lines, lemma_line_offset_bounds, lemma_line_offset_monotone, line_count,
    line_start, line_start_offset, replace_all, replace_all_chars, splice, splice_chars,
    string_of,
};
use vstd::slice::slice_subrange;

verus! {

/// One text replacement of a search-and-replace request.
pub struct SearchReplaceOperation {
    /// Text to search for: matched exactly, or as a regular expression.
    pub search: String,
    /// Text that replaces each match.
    pub replace: String,
    /// Whether `search` is a regular expression (default: false).
    pub use_regex: Option<bool>,
    /// First line of the restricted range (1-based).
    pub start_line: Option<u64>,
    /// Last line of the restricted range (1-based).
    pub end_line: Option<u64>,
    /// Whether matching ignores case (default: false).
    pub ignore_case: Option<bool>,
}

/// A request to apply `edits`, in order, to the file at `path`; with `dry_run`
/// the result is only previewed.
pub struct SearchReplaceTool {
    /// The path of the file to edit.
    pub path: String,
    /// The replacement operations, applied in list order.
    pub edits: Vec<SearchReplaceOperation>,
    /// Preview the changes without writing them.
    pub dry_run: Option<bool>,
}

/// The result of replacing, in `haystack`, every match of the regular
/// expression `pattern` (case-insensitively when `ignore_case`) by
/// `replacement`, with `$` group references expanded; `None` when the pattern
/// does not compile.
pub uninterp spec fn pattern_replaced(
    pattern: Seq<char>,
    ignore_case: bool,
    haystack: Seq<char>,
    replacement: Seq<char>,
) -> Option<Seq<char>>;

/// A regular expression that matches `text` literally.
pub uninterp spec fn escaped_pattern(text: Seq<char>) -> Seq<char>;

/// Relies on `regex::RegexBuilder::new(..).case_insensitive(..).build()` and
/// `Regex::replace_all` with a `&str` replacer: `None` exactly when the pattern
/// does not compile.
#[verifier::external_body]
fn regex_replace_all(pattern: &str, ignore_case: bool, haystack: &str, replacement: &str) -> (r:
    Option<String>)
    ensures
        match pattern_replaced(pattern@, ignore_case, haystack@, replacement@) {
            Some(t) => r matches Some(s) && s@ == t,
            None => r is None,
        },
{
    match regex::RegexBuilder::new(pattern).case_insensitive(ignore_case).build() {
        Ok(re) => Some(re.replace_all(haystack, replacement).into_owned()),
        Err(_) => None,
    }
}

/// Relies on `regex::escape`: a pattern matching its argument literally.
#[verifier::external_body]
fn escape_pattern(text: &str) -> (r: String)
    ensures
        r@ == escaped_pattern(text@),
{
    regex::escape(text)
}

pub open spec fn flag(b: Option<bool>) -> bool {
    b == Some(true)
}

/// The offsets `[lo, hi)` of the lines `start..=end` (1-based, each defaulting
/// to the first and last line), the whole text when neither is given, or
/// `None` when the range is reversed or reaches outside the text.
pub open spec fn line_range(s: Seq<char>, start: Option<u64>, end: Option<u64>) -> Option<
    (int, int),
> {
    if start is None && end is None {
        Some((0, s.len() as int))
    } else {
        let a: int = if start is Some { start->0 as int } else { 1 };
        let b: int = if end is Some { end->0 as int } else { line_count(s) as int };
        if a < 1 || a > b || b > line_count(s) {
            None
        } else {
            Some((line_start(s, (a - 1) as nat), line_start(s, b as nat)))
        }
    }
}

/// A replacement text in which every `$` stands for itself.
pub open spec fn literal_replacement(r: Seq<char>) -> Seq<char> {
    replace_all(r, "$"@, "$$"@)
}

/// The content after one operation, or why it fails.
pub open spec fn operation_result(s: Seq<char>, op: SearchReplaceOperation) -> Result<
    Seq<char>,
    EditError,
> {
    match line_range(s, op.start_line, op.end_line) {
        None => Err(EditError::InvalidLineRange),
        Some((lo, hi)) => {
            let seg = s.subrange(lo, hi);
            if flag(op.use_regex) || flag(op.ignore_case) {
                let pattern = if flag(op.use_regex) {
                    op.search@
                } else {
                    escaped_pattern(op.search@)
                };
                let rep = if flag(op.use_regex) {
                    op.replace@
                } else {
                    literal_replacement(op.replace@)
                };
                match pattern_replaced(pattern, flag(op.ignore_case), seg, rep) {
                    Some(x) => Ok(splice(s, lo, hi, x)),
                    None => Err(EditError::InvalidPattern),
                }
            } else {
                Ok(splice(s, lo, hi, replace_all(seg, op.search@, op.replace@)))
            }
        },
    }
}

/// The content after the operations in order, each on the output of the
/// previous one, or the first failure.
pub open spec fn operations_result(s: Seq<char>, ops: Seq<SearchReplaceOperation>) -> Result<
    Seq<char>,
    EditError,
>
    decreases ops.len(),
{
    if ops.len() == 0 {
        Ok(s)
    } else {
        match operations_result(s, ops.drop_last()) {
            Ok(t) => operation_result(t, ops.last()),
            Err(e) => Err(e),
        }
    }
}

/// The offsets of a line range of `s`, as `line_range` defines them.
fn line_range_offsets(s: &[char], start: Option<u64>, end: Option<u64>) -> (r: Option<
    (usize, usize),
>)
    ensures
        match line_range(s@, start, end) {
            Some((lo, hi)) => r == Some((lo as usize, hi as usize)) && 0 <= lo <= hi <= s.len(),
            None => r is None,
        },
{
    if start.is_none() && end.is_none() {
        return Some((0, s.len()));
    }
    let total = count_lines(s);
    let a: u64 = match start {
        Some(a) => a,
        None => 1,
    };
    let b: u128 = match end {
        Some(b) => b as u128,
        None => total,
    };
    if a < 1 || a as u128 > b || b > total {
        return None;
    }
    let a = a as u128;
    proof {
        lemma_line_offset_bounds(s@, 0, b as nat);
        lemma_line_offset_monotone(s@, 0, (a - 1) as nat, b as nat);
    }
    let lo = line_start_offset(s, a - 1);
    let hi = line_start_offset(s, b);
    Some((lo, hi))
}

/// `s` with one operation applied.
fn apply_operation(s: &Vec<char>, op: &SearchReplaceOperation) -> (r: Result<Vec<char>, EditError>)
    ensures
        match operation_result(s@, *op) {
            Ok(t) => r matches Ok(v) && v@ == t,
            Err(e) => r == Err::<Vec<char>, EditError>(e),
        },
{
    let (lo, hi) = match line_range_offsets(s.as_slice(), op.start_line, op.end_line) {
        Some(range) => range,
        None => return Err(EditError::InvalidLineRange),
    };
    let seg = slice_subrange(s.as_slice(), lo, hi);
    let use_regex = op.use_regex == Some(true);
    let ignore_case = op.ignore_case == Some(true);
    if use_regex || ignore_case {
        let pattern = if use_regex {
            op.search.clone()
        } else {
            escape_pattern(op.search.as_str())
        };
        let rep = if use_regex {
            op.replace.clone()
        } else {
            let dollar = chars_of("$");
            let escaped = chars_of("$$");
            string_of(
                replace_all_chars(
                    chars_of(op.replace.as_str()).as_slice(),
                    dollar.as_slice(),
                    escaped.as_slice(),
                ).as_slice(),
            )
        };
        let haystack = string_of(seg);
        match regex_replace_all(pattern.as_str(), ignore_case, haystack.as_str(), rep.as_str()) {
            Some(x) => {
                let x = chars_of(x.as_str());
                Ok(splice_chars(s.as_slice(), lo, hi, x.as_slice()))
            },
            None => Err(EditError::InvalidPattern),
        }
    } else {
        let search = chars_of(op.search.as_str());
        let replace = chars_of(op.replace.as_str());
        let x = replace_all_chars(seg, search.as_slice(), replace.as_slice());
        Ok(splice_chars(s.as_slice(), lo, hi, x.as_slice()))
    }
}

impl SearchReplaceTool {
    /// Applies `edits` in order to `content`, each to the output of the one
    /// before; fails with the first operation that fails.
    pub fn apply_edits(content: &str, edits: &Vec<SearchReplaceOperation>) -> (r: Result<
        String,
        EditError,
    >)
        ensures
            match operations_result(content@, edits@) {
                Ok(t) => r matches Ok(s) && s@ == t,
                Err(e) => r == Err::<String, EditError>(e),
            },
    {
        let mut current = chars_of(content);
        let mut k: usize = 0;
        while k < edits.len()
            invariant
                k <= edits.len(),
                operations_result(content@, edits@.take(k as int)) == Ok::<Seq<char>, EditError>(
                    current@,
                ),
            decreases edits.len() - k,
        {
            assert(edits@.take(k + 1).drop_last() =~= edits@.take(k as int));
            match apply_operation(&current, &edits[k]) {
                Ok(next) => {
                    current = next;
                },
                Err(e) => {
                    proof {
                        lemma_failure_persists(content@, edits@, k + 1);
                    }
                    return Err(e);
                },
            }
            k = k + 1;
        }
        assert(edits@.take(k as int) =~= edits@);
        Ok(string_of(current.as_slice()))
    }
}

/// Once an operation fails, the whole list fails with that error.
proof fn lemma_failure_persists(s: Seq<char>, ops: Seq<SearchReplaceOperation>, k: int)
    requires
        0 < k <= ops.len(),
        operations_result(s, ops.take(k)) is Err,
    ensures
        operations_result(s, ops) == operations_result(s, ops.take(k)),
    decreases ops.len() - k,
{
    if k == ops.len() {
        assert(ops.take(k) =~= ops);
    } else {
        assert(ops.take(k + 1).drop_last() =~= ops.take(k));
        lemma_failure_persists(s, ops, k + 1);
    }
}

/// An operation that replaces literally over the whole text.
pub open spec fn is_plain_literal(op: SearchReplaceOperation) -> bool {
    &&& !flag(op.use_regex)
    &&& !flag(op.ignore_case)
    &&& op.start_line is None
    &&& op.end_line is None
}

/// Replacing `search` by `replace` and then `replace` by `search`, literally,
/// restores the original content, when `replace` is not empty and its first
/// character does not occur in the content.
pub proof fn lemma_literal_round_trip(
    content: Seq<char>,
    forward: SearchReplaceOperation,
    backward: SearchReplaceOperation,
)
    requires
        is_plain_literal(forward),
        is_plain_literal(backward),
        backward.search@ == forward.replace@,
        backward.replace@ == forward.search@,
        forward.replace@.len() > 0,
        !content.contains(forward.replace@[0]),
    ensures
        operations_result(content, seq![forward, backward]) == Ok::<Seq<char>, EditError>(content),
{
    let p = forward.search@;
    let r = forward.replace@;
    let ops = seq![forward, backward];
    assert(ops.drop_last() =~= seq![forward]);
    assert(seq![forward].drop_last() =~= Seq::<SearchReplaceOperation>::empty());
    assert(content.subrange(0, content.len() as int) =~= content);
    let t = replace_all(content, p, r);
    assert(splice(content, 0, content.len() as int, t) =~= t);
    assert(operation_result(content, forward) == Ok::<Seq<char>, EditError>(t));
    assert(t.subrange(0, t.len() as int) =~= t);
    lemma_replace_round_trip(content, p, r);
    assert(splice(t, 0, t.len() as int, content) =~= content);
    assert(line_range(t, None, None) == Some((0int, t.len() as int)));
    assert(operation_result(t, backward) == Ok::<Seq<char>, EditError>(content));
    assert(operations_result(content, Seq::<SearchReplaceOperation>::empty()) == Ok::<
        Seq<char>,
        EditError,
    >(content));
    assert(operations_result(content, seq![forward]) == Ok::<Seq<char>, EditError>(t));
    assert(ops.last() == backward);
}

} // verus!
