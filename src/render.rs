//! Unified-diff preview of an edit.
use vstd::prelude::*;
use crate::text::{chars_of, string_of};

verus! {

/// The unified diff, line by line, of `original` against `modified`, under the
/// file headers `old_header` and `new_header`.
pub uninterp spec fn unified_diff_text(
    original: Seq<char>,
    modified: Seq<char>,
    old_header: Seq<char>,
    new_header: Seq<char>,
) -> Seq<char>;

/// Relies on `similar::TextDiff::from_lines(..).unified_diff().header(..)` and its
/// `Display`: a line diff (Myers, no deadline), so the text depends on the inputs alone.
#[verifier::external_body]
fn unified_diff(original: &str, modified: &str, old_header: &str, new_header: &str) -> (r: String)
    ensures
        r@ == unified_diff_text(original@, modified@, old_header@, new_header@),
{
    similar::TextDiff::from_lines(original, modified).unified_diff().header(
        old_header,
        new_header,
    ).to_string()
}

/// `n` copies of `c`.
pub open spec fn repeated(c: char, n: nat) -> Seq<char> {
    Seq::new(n, |i: int| c)
}

/// Width of the rule under the `Index:` line.
pub const RULE_WIDTH: usize = 68;

/// The preview shown for an edit of the file at `path`: an `Index:` line, a rule
/// of `=`, then the unified diff with headers `a/<path>` and `b/<path>`.
pub open spec fn preview_text(original: Seq<char>, modified: Seq<char>, path: Seq<char>) -> Seq<
    char,
> {
    "Index: "@ + path + "\n"@ + repeated('=', RULE_WIDTH as nat) + "\n"@
        + unified_diff_text(original, modified, "a/"@ + path, "b/"@ + path)
}

/// Renders the preview of an edit of the file at `file_path`.
pub fn create_diff_output(original: &str, modified: &str, file_path: &str) -> (r: String)
    ensures
        r@ == preview_text(original@, modified@, file_path@),
{
    let path = chars_of(file_path);
    let mut old_header = chars_of("a/");
    old_header.extend_from_slice(path.as_slice());
    let mut new_header = chars_of("b/");
    new_header.extend_from_slice(path.as_slice());
    let old_header = string_of(old_header.as_slice());
    let new_header = string_of(new_header.as_slice());
    assert(old_header@ == "a/"@ + file_path@);
    assert(new_header@ == "b/"@ + file_path@);
    let body = unified_diff(original, modified, old_header.as_str(), new_header.as_str());

    let mut out = chars_of("Index: ");
    out.extend_from_slice(path.as_slice());
    out.extend_from_slice(chars_of("\n").as_slice());
    let mut k: usize = 0;
    while k < RULE_WIDTH
        invariant
            k <= RULE_WIDTH,
            out@ == "Index: "@ + path@ + "\n"@ + repeated('=', k as nat),
        decreases RULE_WIDTH - k,
    {
        out.push('=');
        k = k + 1;
        assert(out@ =~= "Index: "@ + path@ + "\n"@ + repeated('=', k as nat));
    }
    out.extend_from_slice(chars_of("\n").as_slice());
    out.extend_from_slice(chars_of(body.as_str()).as_slice());
    assert(body@ == unified_diff_text(original@, modified@, "a/"@ + file_path@, "b/"@ + file_path@));
    assert(out@ == "Index: "@ + file_path@ + "\n"@ + repeated('=', RULE_WIDTH as nat) + "\n"@ + body@);
    let r = string_of(out.as_slice());
    assert(r@ =~= preview_text(original@, modified@, file_path@));
    r
}

} // verus!
