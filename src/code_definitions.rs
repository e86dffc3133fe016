//! Code definitions found in source text, and their grouped listing.
use vstd::prelude::*;
use vstd::slice::slice_subrange;
use vstd::utf8::encode_utf8;
use crate::render::repeated;
use crate::text::{
    chars_of, decimal, decimal_chars, find_chars, first_match, occurs_at, same_chars, string_of,
    lines_of, split_lines, trim, trim_bounds, view_lines,
};

verus! {

/// A definition found in source code.
#[derive(Debug, Clone)]
pub struct CodeDefinition {
    /// The kind of definition (function, struct, enum, ...).
    pub kind: String,
    /// The name of the definition.
    pub name: String,
    /// The line where the definition appears.
    pub line_number: usize,
    /// The declaration line, trimmed.
    pub signature: String,
}

/// A request to list the definitions in the file or directory at `path`.
pub struct ListCodeDefinitionNamesTool {
    /// The path of the file or directory to analyze.
    pub path: String,
    /// Enable hardware acceleration (default: true).
    pub hardware_accelerated: Option<bool>,
    /// Enable zero-copy reading of large files (default: true).
    pub zero_copy: Option<bool>,
}

/// Scanning `s` from `i` with `depth` open braces (`inside` once one was
/// opened): the position just after the brace that closes the first block,
/// or just after a `;` met before any block opened.
pub open spec fn block_end_from(s: Seq<char>, i: int, depth: int, inside: bool) -> Option<int>
    decreases s.len() - i,
{
    if i < 0 || i >= s.len() {
        None
    } else if s[i] == '{' {
        block_end_from(s, i + 1, depth + 1, true)
    } else if s[i] == '}' {
        if depth - 1 == 0 && inside {
            Some(i + 1)
        } else {
            block_end_from(s, i + 1, depth - 1, inside)
        }
    } else if s[i] == ';' && !inside {
        Some(i + 1)
    } else {
        block_end_from(s, i + 1, depth, inside)
    }
}

/// The name and trimmed text of the function declared in `s`: the text after
/// the first `fn ` up to the next space.
pub open spec fn single_definition(s: Seq<char>) -> Option<(Seq<char>, Seq<char>)> {
    match first_match(s, "fn "@) {
        Some(f) => {
            let after = s.subrange(f + 3, s.len() as int);
            match first_match(after, " "@) {
                Some(sp) => Some((after.subrange(0, sp), trim(s))),
                None => None,
            }
        },
        None => None,
    }
}

/// `a` sorts before `b`, comparing characters from the left; a proper prefix
/// sorts first. This is the order of `String`.
pub open spec fn lex_lt(a: Seq<char>, b: Seq<char>) -> bool
    decreases a.len(),
{
    if a.len() == 0 {
        b.len() > 0
    } else if b.len() == 0 {
        false
    } else if a[0] != b[0] {
        a[0] < b[0]
    } else {
        lex_lt(a.skip(1), b.skip(1))
    }
}

pub proof fn lemma_lex_irreflexive(a: Seq<char>)
    ensures
        !lex_lt(a, a),
    decreases a.len(),
{
    if a.len() > 0 {
        lemma_lex_irreflexive(a.skip(1));
    }
}

pub proof fn lemma_lex_transitive(a: Seq<char>, b: Seq<char>, c: Seq<char>)
    requires
        lex_lt(a, b),
        lex_lt(b, c),
    ensures
        lex_lt(a, c),
    decreases a.len(),
{
    if a.len() > 0 && b.len() > 0 && c.len() > 0 {
        if a[0] == b[0] && b[0] == c[0] {
            lemma_lex_transitive(a.skip(1), b.skip(1), c.skip(1));
        }
    }
}

pub proof fn lemma_lex_total(a: Seq<char>, b: Seq<char>)
    requires
        a != b,
    ensures
        lex_lt(a, b) || lex_lt(b, a),
    decreases a.len(),
{
    if a.len() > 0 && b.len() > 0 && a[0] == b[0] {
        if a.skip(1) == b.skip(1) {
            assert(a =~= seq![a[0]] + a.skip(1));
            assert(b =~= seq![b[0]] + b.skip(1));
        }
        lemma_lex_total(a.skip(1), b.skip(1));
    } else if a.len() == 0 && b.len() == 0 {
        assert(a =~= b);
    }
}

/// Each sequence sorts strictly before every later one.
pub open spec fn strictly_sorted(ks: Seq<Seq<char>>) -> bool {
    forall|i: int, j: int| 0 <= i < j < ks.len() ==> lex_lt(#[trigger] ks[i], #[trigger] ks[j])
}

/// `ks` holds exactly the kinds of `defs`.
pub open spec fn holds_kinds_of(ks: Seq<Seq<char>>, defs: Seq<CodeDefinition>) -> bool {
    &&& forall|i: int| 0 <= i < defs.len() ==> ks.contains(#[trigger] defs[i].kind@)
    &&& forall|q: int|
        0 <= q < ks.len() ==> exists|i: int| 0 <= i < defs.len() && #[trigger] ks[q] == defs[i].kind@
}

/// `  â€¢ <name> (line <n>): <signature>` and a newline.
pub open spec fn definition_line(d: CodeDefinition) -> Seq<char> {
    "  â€¢ "@ + d.name@ + " (line "@ + decimal(d.line_number as nat) + "): "@ + d.signature@ + "\n"@
}

/// The lines of the definitions of kind `k`, in order.
pub open spec fn kind_lines(defs: Seq<CodeDefinition>, k: Seq<char>) -> Seq<char>
    decreases defs.len(),
{
    if defs.len() == 0 {
        seq![]
    } else {
        kind_lines(defs.drop_last(), k) + if defs.last().kind@ == k {
            definition_line(defs.last())
        } else {
            seq![]
        }
    }
}

/// The section for kind `k`: a title, an underline one longer than the kind
/// in bytes, the lines of its definitions and a blank line.
pub open spec fn kind_section(defs: Seq<CodeDefinition>, k: Seq<char>) -> Seq<char> {
    k + "s:\n"@ + repeated('-', encode_utf8(k).len() + 1) + "\n"@ + kind_lines(defs, k) + "\n"@
}

/// The sections for the kinds `ks`, in that order.
pub open spec fn sections(defs: Seq<CodeDefinition>, ks: Seq<Seq<char>>) -> Seq<char>
    decreases ks.len(),
{
    if ks.len() == 0 {
        seq![]
    } else {
        sections(defs, ks.drop_last()) + kind_section(defs, ks.last())
    }
}

/// The listing of `defs` with the kinds in the order `ks`.
pub open spec fn definitions_listing(defs: Seq<CodeDefinition>, ks: Seq<Seq<char>>) -> Seq<char> {
    "Code Definitions:\n================\n\n"@ + sections(defs, ks)
}

/// Whether `ks` holds `x`.
fn contains_kind(ks: &Vec<Vec<char>>, x: &[char]) -> (r: bool)
    ensures
        r == view_lines(ks@).contains(x@),
{
    let mut i: usize = 0;
    while i < ks.len()
        invariant
            i <= ks.len(),
            forall|j: int| 0 <= j < i ==> view_lines(ks@)[j] != x@,
        decreases ks.len() - i,
    {
        if same_chars(ks[i].as_slice(), x) {
            assert(view_lines(ks@)[i as int] == x@);
            return true;
        }
        i = i + 1;
    }
    false
}

/// Whether `a` sorts before `b`.
fn lex_less(a: &[char], b: &[char]) -> (r: bool)
    ensures
        r == lex_lt(a@, b@),
{
    let mut i: usize = 0;
    assert(a@.skip(0) =~= a@);
    assert(b@.skip(0) =~= b@);
    while i < a.len() && i < b.len() && a[i] == b[i]
        invariant
            i <= a.len(),
            i <= b.len(),
            lex_lt(a@.skip(i as int), b@.skip(i as int)) == lex_lt(a@, b@),
        decreases a.len() - i,
    {
        assert(a@.skip(i as int).skip(1) =~= a@.skip(i + 1));
        assert(b@.skip(i as int).skip(1) =~= b@.skip(i + 1));
        i = i + 1;
    }
    if i == a.len() {
        i < b.len()
    } else if i == b.len() {
        false
    } else {
        a[i] < b[i]
    }
}

/// The distinct kinds of `defs`, sorted.
fn sorted_kinds(defs: &Vec<CodeDefinition>) -> (r: Vec<Vec<char>>)
    ensures
        strictly_sorted(view_lines(r@)),
        holds_kinds_of(view_lines(r@), defs@),
{
    let mut ks: Vec<Vec<char>> = Vec::new();
    let mut i: usize = 0;
    while i < defs.len()
        invariant
            i <= defs.len(),
            strictly_sorted(view_lines(ks@)),
            holds_kinds_of(view_lines(ks@), defs@.take(i as int)),
        decreases defs.len() - i,
    {
        let x = chars_of(defs[i].kind.as_str());
        let ghost old_ks = view_lines(ks@);
        if !contains_kind(&ks, x.as_slice()) {
            let mut p: usize = 0;
            while p < ks.len() && lex_less(ks[p].as_slice(), x.as_slice())
                invariant
                    p <= ks.len(),
                    forall|j: int| 0 <= j < p ==> lex_lt(#[trigger] view_lines(ks@)[j], x@),
                decreases ks.len() - p,
            {
                p = p + 1;
            }
            proof {
                if p < ks.len() {
                    assert(old_ks[p as int] != x@) by {
                        if old_ks[p as int] == x@ {
                            assert(old_ks.contains(x@));
                        }
                    }
                    lemma_lex_total(old_ks[p as int], x@);
                }
                assert forall|j: int| p <= j < old_ks.len() implies lex_lt(x@, #[trigger] old_ks[j]) by {
                    if j > p {
                        lemma_lex_transitive(x@, old_ks[p as int], old_ks[j]);
                    }
                }
            }
            ks.insert(p, x);
            let ghost nk = view_lines(ks@);
            assert(nk =~= old_ks.insert(p as int, defs@[i as int].kind@));
            assert(nk[p as int] == x@);
            assert forall|q: int| 0 <= q < old_ks.len() implies nk.contains(
                #[trigger] old_ks[q],
            ) by {
                if q < p {
                    assert(nk[q] == old_ks[q]);
                } else {
                    assert(nk[q + 1] == old_ks[q]);
                }
            }
            assert forall|a: int, b: int| 0 <= a < b < nk.len() implies lex_lt(
                #[trigger] nk[a],
                #[trigger] nk[b],
            ) by {
                if b < p {
                    assert(nk[a] == old_ks[a] && nk[b] == old_ks[b]);
                } else if b == p {
                    assert(nk[a] == old_ks[a]);
                } else if a < p {
                    assert(nk[a] == old_ks[a] && nk[b] == old_ks[b - 1]);
                    lemma_lex_transitive(old_ks[a], x@, old_ks[b - 1]);
                } else if a == p {
                    assert(nk[b] == old_ks[b - 1]);
                } else {
                    assert(nk[a] == old_ks[a - 1] && nk[b] == old_ks[b - 1]);
                }
            }
        }
        assert forall|q: int| 0 <= q < old_ks.len() implies view_lines(ks@).contains(
            #[trigger] old_ks[q],
        ) by {
            if view_lines(ks@) == old_ks {
                assert(view_lines(ks@)[q] == old_ks[q]);
            }
        }
        proof {
            let nk = view_lines(ks@);
            let d = defs@.take(i + 1);
            assert(defs@.take(i as int) =~= d.drop_last());
            assert(nk.contains(defs@[i as int].kind@));
            assert forall|q: int| 0 <= q < nk.len() implies exists|t: int|
                0 <= t < d.len() && #[trigger] nk[q] == d[t].kind@ by {
                if nk[q] == defs@[i as int].kind@ {
                    assert(d[i as int].kind@ == nk[q]);
                } else {
                    assert(old_ks.contains(nk[q]));
                    let q0 = choose|q0: int| 0 <= q0 < old_ks.len() && old_ks[q0] == nk[q];
                    let t = choose|t: int| 0 <= t < i && #[trigger] old_ks[q0] == defs@.take(
                        i as int,
                    )[t].kind@;
                    assert(d[t] == defs@.take(i as int)[t]);
                }
            }
            assert forall|t: int| 0 <= t < d.len() implies nk.contains(#[trigger] d[t].kind@) by {
                if t < i {
                    assert(d[t] == defs@.take(i as int)[t]);
                    assert(old_ks.contains(d[t].kind@));
                    let q0 = choose|q0: int| 0 <= q0 < old_ks.len() && old_ks[q0] == d[t].kind@;
                    assert(nk.contains(old_ks[q0]));
                }
            }
        }
        i = i + 1;
    }
    assert(defs@.take(i as int) =~= defs@);
    ks
}

/// The lines of the definitions of kind `k`.
fn kind_lines_text(defs: &Vec<CodeDefinition>, k: &[char]) -> (r: Vec<char>)
    ensures
        r@ == kind_lines(defs@, k@),
{
    let mut out: Vec<char> = Vec::new();
    let mut i: usize = 0;
    while i < defs.len()
        invariant
            i <= defs.len(),
            out@ == kind_lines(defs@.take(i as int), k@),
        decreases defs.len() - i,
    {
        assert(defs@.take(i + 1).drop_last() =~= defs@.take(i as int));
        let d = &defs[i];
        let kind = chars_of(d.kind.as_str());
        if same_chars(kind.as_slice(), k) {
            out.extend_from_slice(chars_of("  â€¢ ").as_slice());
            out.extend_from_slice(chars_of(d.name.as_str()).as_slice());
            out.extend_from_slice(chars_of(" (line ").as_slice());
            out.extend_from_slice(decimal_chars(d.line_number as u128).as_slice());
            out.extend_from_slice(chars_of("): ").as_slice());
            out.extend_from_slice(chars_of(d.signature.as_str()).as_slice());
            out.extend_from_slice(chars_of("\n").as_slice());
        }
        i = i + 1;
        assert(out@ =~= kind_lines(defs@.take(i as int), k@));
    }
    assert(defs@.take(i as int) =~= defs@);
    out
}

/// `regex::Regex`, carried through as an opaque value.
#[verifier::external_type_specification]
#[verifier::external_body]
pub struct ExRegex(regex::Regex);

/// Whether `pattern` compiles as a regular expression.
pub uninterp spec fn pattern_compiles(pattern: Seq<char>) -> bool;

/// The groups of the leftmost-first match of `pattern` in `text` (group 0
/// first; `None` for a group that took no part), or `None` without a match.
pub uninterp spec fn first_captures(pattern: Seq<char>, text: Seq<char>) -> Option<
    Seq<Option<Seq<char>>>,
>;

/// A compiled regular expression with the pattern it was compiled from.
pub struct CompiledPattern {
    source: String,
    re: regex::Regex,
}

impl CompiledPattern {
    pub closed spec fn source_view(&self) -> Seq<char> {
        self.source@
    }
}

pub open spec fn view_groups(v: Seq<Option<String>>) -> Seq<Option<Seq<char>>> {
    v.map_values(|g: Option<String>| match g {
        Some(t) => Some(t@),
        None => None,
    })
}

/// Relies on `regex::Regex::new`: `None` exactly when the pattern does not
/// compile.
#[verifier::external_body]
fn compile_pattern(pattern: &str) -> (r: Option<CompiledPattern>)
    ensures
        r is Some <==> pattern_compiles(pattern@),
        r matches Some(p) ==> p.source_view() == pattern@,
{
    match regex::Regex::new(pattern) {
        Ok(re) => Some(CompiledPattern { source: pattern.to_string(), re }),
        Err(_) => None,
    }
}

/// Relies on `regex::Regex::captures` and `Captures::iter`: the groups of the
/// leftmost-first match, as owned strings.
#[verifier::external_body]
fn pattern_captures(p: &CompiledPattern, text: &str) -> (r: Option<Vec<Option<String>>>)
    ensures
        match first_captures(p.source_view(), text@) {
            Some(groups) => r matches Some(v) && view_groups(v@) == groups,
            None => r is None,
        },
{
    match p.re.captures(text) {
        Some(caps) => Some(caps.iter().map(|g| g.map(|m| m.as_str().to_string())).collect()),
        None => None,
    }
}

/// The patterns tried on each line, in order, with the kind each one finds.
pub open spec fn definition_patterns() -> Seq<(Seq<char>, Seq<char>)> {
    seq![
        (r"^\s*pub\s+fn\s+([a-zA-Z_][a-zA-Z0-9_]*)\s*(\([^)]*\))\s*(->\s*[^{]+)?"@, "function"@),
        (r"^\s*fn\s+([a-zA-Z_][a-zA-Z0-9_]*)\s*(\([^)]*\))\s*(->\s*[^{]+)?"@, "function"@),
        (r"^\s*pub\s+struct\s+([a-zA-Z_][a-zA-Z0-9_]*)"@, "struct"@),
        (r"^\s*struct\s+([a-zA-Z_][a-zA-Z0-9_]*)"@, "struct"@),
        (r"^\s*pub\s+enum\s+([a-zA-Z_][a-zA-Z0-9_]*)"@, "enum"@),
        (r"^\s*enum\s+([a-zA-Z_][a-zA-Z0-9_]*)"@, "enum"@),
        (r"^\s*pub\s+trait\s+([a-zA-Z_][a-zA-Z0-9_]*)"@, "trait"@),
        (r"^\s*trait\s+([a-zA-Z_][a-zA-Z0-9_]*)"@, "trait"@),
        (r"^\s*pub\s+type\s+([a-zA-Z_][a-zA-Z0-9_]*)\s*="@, "type"@),
        (r"^\s*type\s+([a-zA-Z_][a-zA-Z0-9_]*)\s*="@, "type"@),
        (r"^\s*pub\s+const\s+([A-Z_][A-Z0-9_]*)\s*:\s*[^=]+="@, "const"@),
        (r"^\s*const\s+([A-Z_][A-Z0-9_]*)\s*:\s*[^=]+="@, "const"@),
        (r"^\s*impl\s+(?:([a-zA-Z_][a-zA-Z0-9_:<>\s]*?)\s+for\s+)?([a-zA-Z_][a-zA-Z0-9_:<>]*)"@, "impl"@),
    ]
}

fn definition_pattern_table() -> (r: Vec<(&'static str, &'static str)>)
    ensures
        r@.map_values(|e: (&str, &str)| (e.0@, e.1@)) == definition_patterns(),
{
    let mut v: Vec<(&'static str, &'static str)> = Vec::new();
    v.push((r"^\s*pub\s+fn\s+([a-zA-Z_][a-zA-Z0-9_]*)\s*(\([^)]*\))\s*(->\s*[^{]+)?", "function"));
    v.push((r"^\s*fn\s+([a-zA-Z_][a-zA-Z0-9_]*)\s*(\([^)]*\))\s*(->\s*[^{]+)?", "function"));
    v.push((r"^\s*pub\s+struct\s+([a-zA-Z_][a-zA-Z0-9_]*)", "struct"));
    v.push((r"^\s*struct\s+([a-zA-Z_][a-zA-Z0-9_]*)", "struct"));
    v.push((r"^\s*pub\s+enum\s+([a-zA-Z_][a-zA-Z0-9_]*)", "enum"));
    v.push((r"^\s*enum\s+([a-zA-Z_][a-zA-Z0-9_]*)", "enum"));
    v.push((r"^\s*pub\s+trait\s+([a-zA-Z_][a-zA-Z0-9_]*)", "trait"));
    v.push((r"^\s*trait\s+([a-zA-Z_][a-zA-Z0-9_]*)", "trait"));
    v.push((r"^\s*pub\s+type\s+([a-zA-Z_][a-zA-Z0-9_]*)\s*=", "type"));
    v.push((r"^\s*type\s+([a-zA-Z_][a-zA-Z0-9_]*)\s*=", "type"));
    v.push((r"^\s*pub\s+const\s+([A-Z_][A-Z0-9_]*)\s*:\s*[^=]+=", "const"));
    v.push((r"^\s*const\s+([A-Z_][A-Z0-9_]*)\s*:\s*[^=]+=", "const"));
    v.push((r"^\s*impl\s+(?:([a-zA-Z_][a-zA-Z0-9_:<>\s]*?)\s+for\s+)?([a-zA-Z_][a-zA-Z0-9_:<>]*)", "impl"));
    assert(v@.map_values(|e: (&str, &str)| (e.0@, e.1@)) =~= definition_patterns());
    v
}

/// The patterns that compile, in order.
pub open spec fn usable_patterns(pats: Seq<(Seq<char>, Seq<char>)>) -> Seq<(Seq<char>, Seq<char>)>
    decreases pats.len(),
{
    if pats.len() == 0 {
        seq![]
    } else if pattern_compiles(pats.last().0) {
        usable_patterns(pats.drop_last()).push(pats.last())
    } else {
        usable_patterns(pats.drop_last())
    }
}

/// A group's text, or nothing when it took no part.
pub open spec fn group_text(groups: Seq<Option<Seq<char>>>, i: int) -> Seq<char> {
    if 0 <= i < groups.len() && groups[i] is Some {
        groups[i]->0
    } else {
        seq![]
    }
}

/// The name a match defines: group 1, or for `impl` the implemented type
/// (group 2), after `<trait> for ` when a trait is named.
pub open spec fn definition_name(kind: Seq<char>, groups: Seq<Option<Seq<char>>>) -> Seq<char> {
    if kind == "impl"@ {
        if 1 < groups.len() && groups[1] is Some {
            group_text(groups, 1) + " for "@ + group_text(groups, 2)
        } else {
            group_text(groups, 2)
        }
    } else {
        group_text(groups, 1)
    }
}

/// The first of `pats` from `k` on that matches `line`: its kind and name.
pub open spec fn line_match(line: Seq<char>, pats: Seq<(Seq<char>, Seq<char>)>, k: int) -> Option<
    (Seq<char>, Seq<char>),
>
    decreases pats.len() - k,
{
    if k < 0 || k >= pats.len() {
        None
    } else {
        match first_captures(pats[k].0, line) {
            Some(groups) => Some((pats[k].1, definition_name(pats[k].1, groups))),
            None => line_match(line, pats, k + 1),
        }
    }
}

/// A definition as plain values: kind, name, line number, signature.
pub open spec fn definition_view(d: CodeDefinition) -> (Seq<char>, Seq<char>, nat, Seq<char>) {
    (d.kind@, d.name@, d.line_number as nat, d.signature@)
}

/// Lines are numbered within blocks of this many lines.
pub const LINE_BLOCK: usize = 1000;

/// The definitions found on the lines `lines`, in order: at most one per
/// line, numbered by its place within its block of lines.
pub open spec fn definitions_in(
    lines: Seq<Seq<char>>,
    pats: Seq<(Seq<char>, Seq<char>)>,
) -> Seq<(Seq<char>, Seq<char>, nat, Seq<char>)>
    decreases lines.len(),
{
    if lines.len() == 0 {
        seq![]
    } else {
        let i = lines.len() - 1;
        let rest = definitions_in(lines.drop_last(), pats);
        match line_match(lines.last(), pats, 0) {
            Some((kind, name)) => rest.push(
                (kind, name, ((i % LINE_BLOCK as int) + 1) as nat, trim(lines.last())),
            ),
            None => rest,
        }
    }
}

/// The compiled patterns that compile, in order, with their kinds.
fn compile_patterns() -> (r: Vec<(CompiledPattern, &'static str)>)
    ensures
        r@.map_values(|e: (CompiledPattern, &str)| (e.0.source_view(), e.1@)) == usable_patterns(
            definition_patterns(),
        ),
{
    let table = definition_pattern_table();
    let ghost pats = definition_patterns();
    let mut out: Vec<(CompiledPattern, &'static str)> = Vec::new();
    let mut i: usize = 0;
    while i < table.len()
        invariant
            i <= table.len(),
            table@.map_values(|e: (&str, &str)| (e.0@, e.1@)) == pats,
            out@.map_values(|e: (CompiledPattern, &str)| (e.0.source_view(), e.1@))
                == usable_patterns(pats.take(i as int)),
        decreases table.len() - i,
    {
        assert(pats.take(i + 1).drop_last() =~= pats.take(i as int));
        assert(pats[i as int] == (table@[i as int].0@, table@[i as int].1@));
        let (pattern, kind) = table[i];
        match compile_pattern(pattern) {
            Some(p) => {
                out.push((p, kind));
            },
            None => {},
        }
        i = i + 1;
        assert(out@.map_values(|e: (CompiledPattern, &str)| (e.0.source_view(), e.1@))
            =~= usable_patterns(pats.take(i as int)));
    }
    assert(pats.take(i as int) =~= pats);
    out
}

/// A group's text, or an empty string when it took no part.
fn group_string(groups: &Vec<Option<String>>, i: usize) -> (r: Vec<char>)
    ensures
        r@ == group_text(view_groups(groups@), i as int),
{
    if i < groups.len() {
        match &groups[i] {
            Some(t) => chars_of(t.as_str()),
            None => Vec::new(),
        }
    } else {
        Vec::new()
    }
}

/// The kind and name of the first pattern from `k` on that matches `line`.
fn match_line(line: &str, pats: &Vec<(CompiledPattern, &'static str)>) -> (r: Option<
    (Vec<char>, Vec<char>),
>)
    ensures
        match line_match(
            line@,
            pats@.map_values(|e: (CompiledPattern, &str)| (e.0.source_view(), e.1@)),
            0,
        ) {
            Some((kind, name)) => r matches Some(v) && v.0@ == kind && v.1@ == name,
            None => r is None,
        },
{
    let ghost ps = pats@.map_values(|e: (CompiledPattern, &str)| (e.0.source_view(), e.1@));
    let mut k: usize = 0;
    while k < pats.len()
        invariant
            k <= pats.len(),
            ps == pats@.map_values(|e: (CompiledPattern, &str)| (e.0.source_view(), e.1@)),
            line_match(line@, ps, k as int) == line_match(line@, ps, 0),
        decreases pats.len() - k,
    {
        let (p, kind) = (&pats[k].0, pats[k].1);
        assert(ps[k as int] == (p.source_view(), kind@));
        match pattern_captures(p, line) {
            Some(groups) => {
                let ghost gs = view_groups(groups@);
                let kind_chars = chars_of(kind);
                let is_impl = same_chars(kind_chars.as_slice(), chars_of("impl").as_slice());
                let name = if is_impl {
                    let trait_named = groups.len() > 1 && groups[1].is_some();
                    if trait_named {
                        assert(gs[1] is Some);
                        let mut n = group_string(&groups, 1);
                        n.extend_from_slice(chars_of(" for ").as_slice());
                        n.extend_from_slice(group_string(&groups, 2).as_slice());
                        n
                    } else {
                        group_string(&groups, 2)
                    }
                } else {
                    group_string(&groups, 1)
                };
                assert(name@ == definition_name(kind@, gs));
                return Some((kind_chars, name));
            },
            None => {},
        }
        k = k + 1;
    }
    None
}

impl ListCodeDefinitionNamesTool {
    /// The definitions in `content`, found line by line with the regular
    /// expressions of `definition_patterns` (the first that matches decides).
    pub fn extract_definitions_zero_copy(content: &str) -> (r: Vec<CodeDefinition>)
        ensures
            r@.map_values(|d: CodeDefinition| definition_view(d)) == definitions_in(
                lines_of(content@),
                usable_patterns(definition_patterns()),
            ),
    {
        let pats = compile_patterns();
        let ghost ps = usable_patterns(definition_patterns());
        let text = chars_of(content);
        let lines = split_lines(text.as_slice());
        let ghost ls = view_lines(lines@);
        let mut out: Vec<CodeDefinition> = Vec::new();
        let mut i: usize = 0;
        while i < lines.len()
            invariant
                i <= lines.len(),
                ls == view_lines(lines@),
                ls == lines_of(content@),
                ps == pats@.map_values(|e: (CompiledPattern, &str)| (e.0.source_view(), e.1@)),
                out@.map_values(|d: CodeDefinition| definition_view(d)) == definitions_in(
                    ls.take(i as int),
                    ps,
                ),
            decreases lines.len() - i,
        {
            assert(ls.take(i + 1).drop_last() =~= ls.take(i as int));
            assert(ls.take(i + 1).last() == lines@[i as int]@);
            let line = string_of(lines[i].as_slice());
            match match_line(line.as_str(), &pats) {
                Some((kind, name)) => {
                    let (a, b) = trim_bounds(lines[i].as_slice());
                    let d = CodeDefinition {
                        kind: string_of(kind.as_slice()),
                        name: string_of(name.as_slice()),
                        line_number: i % LINE_BLOCK + 1,
                        signature: string_of(slice_subrange(lines[i].as_slice(), a, b)),
                    };
                    out.push(d);
                },
                None => {},
            }
            i = i + 1;
            assert(out@.map_values(|d: CodeDefinition| definition_view(d)) =~= definitions_in(
                ls.take(i as int),
                ps,
            ));
        }
        assert(ls.take(i as int) =~= ls);
        out
    }

    /// The definitions in `content`; the file name is not consulted.
    pub fn extract_definitions(content: &str, _file_name: &str) -> (r: Vec<CodeDefinition>)
        ensures
            r@.map_values(|d: CodeDefinition| definition_view(d)) == definitions_in(
                lines_of(content@),
                usable_patterns(definition_patterns()),
            ),
    {
        ListCodeDefinitionNamesTool::extract_definitions_zero_copy(content)
    }

    /// The length in characters of the item that starts `content`: up to the
    /// brace closing its first block, or to a `;` before any block.
    pub fn find_function_end(content: &str) -> (r: Option<usize>)
        ensures
            match block_end_from(content@, 0, 0, false) {
                Some(e) => r == Some(e as usize),
                None => r is None,
            },
    {
        let s = chars_of(content);
        let mut depth: i128 = 0;
        let mut inside = false;
        let mut i: usize = 0;
        while i < s.len()
            invariant
                i <= s.len(),
                s@ == content@,
                -(i as int) <= depth <= i as int,
                block_end_from(s@, i as int, depth as int, inside) == block_end_from(
                    s@,
                    0,
                    0,
                    false,
                ),
            decreases s.len() - i,
        {
            let c = s[i];
            if c == '{' {
                depth = depth + 1;
                inside = true;
            } else if c == '}' {
                depth = depth - 1;
                if depth == 0 && inside {
                    return Some(i + 1);
                }
            } else if c == ';' {
                if !inside {
                    return Some(i + 1);
                }
            }
            i = i + 1;
        }
        None
    }

    /// The function declared in `content`, named by the text after its first
    /// `fn ` up to the next space, at line 1, with `content` trimmed as its
    /// signature.
    pub fn extract_single_definition(content: &str) -> (r: Option<CodeDefinition>)
        ensures
            match single_definition(content@) {
                Some((name, signature)) => r matches Some(d) && d.kind@ == "function"@ && d.name@
                    == name && d.line_number == 1 && d.signature@ == signature,
                None => r is None,
            },
    {
        let s = chars_of(content);
        let key = chars_of("fn ");
        let f = match find_chars(s.as_slice(), key.as_slice()) {
            Some(f) => f,
            None => return None,
        };
        proof {
            reveal_strlit("fn ");
        }
        assert(occurs_at(s@, key@, f as int));
        assert(key@.len() == 3);
        assert(f + 3 <= s@.len());
        assert(f + 3 <= s.len());
        let after = slice_subrange(s.as_slice(), f + 3, s.len());
        let space = chars_of(" ");
        let sp = match find_chars(after, space.as_slice()) {
            Some(sp) => sp,
            None => return None,
        };
        assert(occurs_at(after@, space@, sp as int));
        let name = slice_subrange(after, 0, sp);
        let (a, b) = trim_bounds(s.as_slice());
        Some(
            CodeDefinition {
                kind: string_of(chars_of("function").as_slice()),
                name: string_of(name),
                line_number: 1,
                signature: string_of(slice_subrange(s.as_slice(), a, b)),
            },
        )
    }

    /// The listing of `definitions`: a title, then one section per kind in
    /// sorted order, each listing that kind's definitions in their order; or a
    /// notice when there are none.
    pub fn format_definitions_optimized(definitions: Vec<CodeDefinition>) -> (r: String)
        ensures
            definitions@.len() == 0 ==> r@ == "No code definitions found."@,
            definitions@.len() > 0 ==> exists|ks: Seq<Seq<char>>|
                strictly_sorted(ks) && holds_kinds_of(ks, definitions@) && r@
                    == definitions_listing(definitions@, ks),
    {
        if definitions.len() == 0 {
            return string_of(chars_of("No code definitions found.").as_slice());
        }
        let ks = sorted_kinds(&definitions);
        let ghost kv = view_lines(ks@);
        let mut out = chars_of("Code Definitions:\n================\n\n");
        let mut q: usize = 0;
        while q < ks.len()
            invariant
                q <= ks.len(),
                kv == view_lines(ks@),
                out@ == "Code Definitions:\n================\n\n"@ + sections(
                    definitions@,
                    kv.take(q as int),
                ),
            decreases ks.len() - q,
        {
            assert(kv.take(q + 1).drop_last() =~= kv.take(q as int));
            let k = ks[q].as_slice();
            out.extend_from_slice(k);
            out.extend_from_slice(chars_of("s:\n").as_slice());
            let kind_text = string_of(k);
            let width = kind_text.as_str().as_bytes().len();
            let ghost before = out@;
            out.push('-');
            let mut t: usize = 0;
            assert(out@ =~= before + repeated('-', 1));
            while t < width
                invariant
                    t <= width,
                    out@ == before + repeated('-', (t + 1) as nat),
                decreases width - t,
            {
                out.push('-');
                t = t + 1;
                assert(out@ =~= before + repeated('-', (t + 1) as nat));
            }
            assert(width == encode_utf8(kv[q as int]).len());
            out.extend_from_slice(chars_of("\n").as_slice());
            out.extend_from_slice(kind_lines_text(&definitions, k).as_slice());
            out.extend_from_slice(chars_of("\n").as_slice());
            assert(kv.take(q + 1).last() == kv[q as int]);
            assert(sections(definitions@, kv.take(q + 1)) == sections(definitions@, kv.take(q as int))
                + kind_section(definitions@, kv[q as int]));
            q = q + 1;
            assert(out@ =~= "Code Definitions:\n================\n\n"@ + sections(
                definitions@,
                kv.take(q as int),
            ));
        }
        assert(kv.take(q as int) =~= kv);
        string_of(out.as_slice())
    }
}

} // verus!
