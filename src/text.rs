//! Character-level text model shared by the edit operations: substring search,
//! splicing, literal replacement, line offsets, line splitting and trimming.
use vstd::prelude::*;
use vstd::slice::slice_subrange;

verus! {

// ---------------------------------------------------------------------------
// Specification
// ---------------------------------------------------------------------------

/// `p` occurs in `s` starting at position `i`.
pub open spec fn occurs_at(s: Seq<char>, p: Seq<char>, i: int) -> bool {
    0 <= i && i + p.len() <= s.len() && s.subrange(i, i + p.len()) == p
}

/// The first position at or after `i` where `p` occurs in `s`.
pub open spec fn find_from(s: Seq<char>, p: Seq<char>, i: int) -> Option<int>
    decreases s.len() + 1 - i,
{
    if i < 0 || i + p.len() > s.len() {
        None
    } else if occurs_at(s, p, i) {
        Some(i)
    } else {
        find_from(s, p, i + 1)
    }
}

/// The position of the first occurrence of `p` in `s`.
pub open spec fn first_match(s: Seq<char>, p: Seq<char>) -> Option<int> {
    find_from(s, p, 0)
}

/// `s` with the range `[start, end)` replaced by `r`.
pub open spec fn splice(s: Seq<char>, start: int, end: int, r: Seq<char>) -> Seq<char> {
    s.subrange(0, start) + r + s.subrange(end, s.len() as int)
}

/// Every non-overlapping occurrence of `p` in `s`, scanning from the left,
/// replaced by `r`. An empty `p` matches before every character and at the end.
pub open spec fn replace_all(s: Seq<char>, p: Seq<char>, r: Seq<char>) -> Seq<char>
    decreases s.len(),
{
    if p.len() == 0 {
        if s.len() == 0 {
            r
        } else {
            r + seq![s[0]] + replace_all(s.skip(1), p, r)
        }
    } else if s.len() < p.len() {
        s
    } else if s.take(p.len() as int) == p {
        r + replace_all(s.skip(p.len() as int), p, r)
    } else {
        seq![s[0]] + replace_all(s.skip(1), p, r)
    }
}

/// Number of `'\n'` characters in `s`.
pub open spec fn newline_count(s: Seq<char>) -> nat
    decreases s.len(),
{
    if s.len() == 0 {
        0
    } else {
        (if s[0] == '\n' { 1nat } else { 0nat }) + newline_count(s.skip(1))
    }
}

/// Scanning `s` from `i`, the position just after the `n`-th newline met,
/// or the end of `s` if fewer than `n` remain.
pub open spec fn line_offset_from(s: Seq<char>, i: int, n: nat) -> int
    decreases s.len() - i,
{
    if n == 0 {
        i
    } else if i >= s.len() {
        s.len() as int
    } else if s[i] == '\n' {
        line_offset_from(s, i + 1, (n - 1) as nat)
    } else {
        line_offset_from(s, i + 1, n)
    }
}

/// The offset at which the line after the first `n` lines begins (line `n + 1`,
/// 1-based), or the end of `s` when `s` has fewer than `n` newlines.
pub open spec fn line_start(s: Seq<char>, n: nat) -> int {
    line_offset_from(s, 0, n)
}

/// Number of lines in `s`: every newline ends a line, and a non-empty tail
/// after the last newline is one more line.
pub open spec fn line_count(s: Seq<char>) -> nat {
    newline_count(s) + (if s.len() > 0 && s.last() != '\n' { 1nat } else { 0nat })
}

/// The first position at or after `i` holding a newline, or the end of `s`.
pub open spec fn next_newline(s: Seq<char>, i: int) -> int
    decreases s.len() - i,
{
    if i >= s.len() {
        s.len() as int
    } else if s[i] == '\n' {
        i
    } else {
        next_newline(s, i + 1)
    }
}

/// `s` without one trailing carriage return.
pub open spec fn strip_cr(s: Seq<char>) -> Seq<char> {
    if s.len() > 0 && s.last() == '\r' {
        s.drop_last()
    } else {
        s
    }
}

/// The lines of `s[i..]`: split at each `'\n'`, a `'\r'` before that newline
/// dropped, and no empty line after a final newline.
pub open spec fn lines_from(s: Seq<char>, i: int) -> Seq<Seq<char>>
    decreases s.len() - i,
{
    if i < 0 || i >= s.len() {
        seq![]
    } else {
        let j = next_newline(s, i);
        if i <= j < s.len() {
            seq![strip_cr(s.subrange(i, j))] + lines_from(s, j + 1)
        } else {
            seq![s.subrange(i, s.len() as int)]
        }
    }
}

/// The lines of `s`.
pub open spec fn lines_of(s: Seq<char>) -> Seq<Seq<char>> {
    lines_from(s, 0)
}

/// `lines` joined with `sep` between consecutive lines.
pub open spec fn join(lines: Seq<Seq<char>>, sep: Seq<char>) -> Seq<char>
    decreases lines.len(),
{
    if lines.len() == 0 {
        seq![]
    } else if lines.len() == 1 {
        lines[0]
    } else {
        join(lines.drop_last(), sep) + sep + lines.last()
    }
}

/// Unicode `White_Space`, as `char::is_whitespace` documents it.
pub open spec fn is_white(c: char) -> bool {
    let u = c as u32;
    (0x9 <= u <= 0xD) || u == 0x20 || u == 0x85 || u == 0xA0 || u == 0x1680 || (0x2000 <= u
        <= 0x200A) || u == 0x2028 || u == 0x2029 || u == 0x202F || u == 0x205F || u == 0x3000
}

pub open spec fn trim_start(s: Seq<char>) -> Seq<char>
    decreases s.len(),
{
    if s.len() > 0 && is_white(s[0]) {
        trim_start(s.skip(1))
    } else {
        s
    }
}

pub open spec fn trim_end(s: Seq<char>) -> Seq<char>
    decreases s.len(),
{
    if s.len() > 0 && is_white(s.last()) {
        trim_end(s.drop_last())
    } else {
        s
    }
}

/// `s` without leading and trailing white space.
pub open spec fn trim(s: Seq<char>) -> Seq<char> {
    trim_end(trim_start(s))
}

pub open spec fn view_lines(v: Seq<Vec<char>>) -> Seq<Seq<char>> {
    v.map_values(|l: Vec<char>| l@)
}

// ---------------------------------------------------------------------------
// Facts about lines
// ---------------------------------------------------------------------------

/// A scan for line starts never moves backwards nor past the end.
pub proof fn lemma_line_offset_bounds(s: Seq<char>, i: int, n: nat)
    requires
        0 <= i <= s.len(),
    ensures
        i <= line_offset_from(s, i, n) <= s.len(),
    decreases s.len() - i,
{
    if n > 0 && i < s.len() {
        if s[i] == '\n' {
            lemma_line_offset_bounds(s, i + 1, (n - 1) as nat);
        } else {
            lemma_line_offset_bounds(s, i + 1, n);
        }
    }
}

/// Scanning for more newlines never stops earlier.
pub proof fn lemma_line_offset_monotone(s: Seq<char>, i: int, n: nat, m: nat)
    requires
        0 <= i <= s.len(),
        n <= m,
    ensures
        line_offset_from(s, i, n) <= line_offset_from(s, i, m),
    decreases s.len() - i,
{
    if n == 0 {
        lemma_line_offset_bounds(s, i, m);
    } else if i < s.len() {
        if s[i] == '\n' {
            lemma_line_offset_monotone(s, i + 1, (n - 1) as nat, (m - 1) as nat);
        } else {
            lemma_line_offset_monotone(s, i + 1, n, m);
        }
    }
}

/// Newlines of a concatenation are those of its parts.
pub proof fn lemma_newline_count_concat(a: Seq<char>, b: Seq<char>)
    ensures
        newline_count(a + b) == newline_count(a) + newline_count(b),
    decreases a.len(),
{
    if a.len() == 0 {
        assert(a + b =~= b);
    } else {
        assert((a + b).skip(1) =~= a.skip(1) + b);
        lemma_newline_count_concat(a.skip(1), b);
    }
}

/// Where a scan for `n` newlines from `i` stops at `o` (having met them all),
/// any text that agrees with `s` before `o` stops at `o` too.
pub proof fn lemma_line_offset_agree(s: Seq<char>, t: Seq<char>, i: int, n: nat)
    requires
        0 <= i <= s.len(),
        n <= newline_count(s.subrange(i, s.len() as int)),
        line_offset_from(s, i, n) <= t.len(),
        t.subrange(0, line_offset_from(s, i, n)) == s.subrange(0, line_offset_from(s, i, n)),
    ensures
        line_offset_from(t, i, n) == line_offset_from(s, i, n),
    decreases s.len() - i,
{
    let o = line_offset_from(s, i, n);
    if n > 0 {
        let x = s.subrange(i, s.len() as int);
        if i == s.len() {
            assert(x.len() == 0);
        }
        assert(i < s.len());
        assert(x.skip(1) =~= s.subrange(i + 1, s.len() as int));
        assert(x[0] == s[i]);
        if s[i] == '\n' {
            lemma_line_offset_bounds(s, i + 1, (n - 1) as nat);
            assert(t.subrange(0, o)[i] == s.subrange(0, o)[i]);
            lemma_line_offset_agree(s, t, i + 1, (n - 1) as nat);
        } else {
            lemma_line_offset_bounds(s, i + 1, n);
            assert(t.subrange(0, o)[i] == s.subrange(0, o)[i]);
            lemma_line_offset_agree(s, t, i + 1, n);
        }
    }
}

// ---------------------------------------------------------------------------
// Facts about literal replacement
// ---------------------------------------------------------------------------

/// Text without the first character of `r` holds no occurrence of `r`.
pub proof fn lemma_replace_absent(x: Seq<char>, r: Seq<char>, q: Seq<char>)
    requires
        r.len() > 0,
        !x.contains(r[0]),
    ensures
        replace_all(x, r, q) == x,
    decreases x.len(),
{
    if x.len() >= r.len() {
        assert(x.take(r.len() as int)[0] == x[0]);
        assert(!x.skip(1).contains(r[0])) by {
            if x.skip(1).contains(r[0]) {
                let k = choose|k: int| 0 <= k < x.skip(1).len() && x.skip(1)[k] == r[0];
                assert(x[k + 1] == r[0]);
            }
        }
        lemma_replace_absent(x.skip(1), r, q);
        assert(seq![x[0]] + x.skip(1) =~= x);
    }
}

/// A leading character that cannot start `r` is kept as it is.
pub proof fn lemma_replace_keeps_head(c: char, u: Seq<char>, r: Seq<char>, q: Seq<char>)
    requires
        r.len() > 0,
        c != r[0],
    ensures
        replace_all(seq![c] + u, r, q) == seq![c] + replace_all(u, r, q),
{
    let x = seq![c] + u;
    assert(x.skip(1) =~= u);
    if x.len() >= r.len() {
        assert(x.take(r.len() as int)[0] == c);
    } else {
        assert(u.len() < r.len());
        assert(replace_all(u, r, q) == u);
        assert(replace_all(x, r, q) == x);
    }
}

/// A leading occurrence of `r` is replaced.
pub proof fn lemma_replace_leading(u: Seq<char>, r: Seq<char>, q: Seq<char>)
    requires
        r.len() > 0,
    ensures
        replace_all(r + u, r, q) == q + replace_all(u, r, q),
{
    assert((r + u).take(r.len() as int) =~= r);
    assert((r + u).skip(r.len() as int) =~= u);
}

/// Replacing `p` by `r` and then `r` by `p` gives back `s`, when `r` is not
/// empty and its first character does not occur in `s`.
pub proof fn lemma_replace_round_trip(s: Seq<char>, p: Seq<char>, r: Seq<char>)
    requires
        r.len() > 0,
        !s.contains(r[0]),
    ensures
        replace_all(replace_all(s, p, r), r, p) == s,
    decreases s.len(),
{
    if s.len() > 0 {
        assert(!s.skip(1).contains(r[0])) by {
            if s.skip(1).contains(r[0]) {
                let k = choose|k: int| 0 <= k < s.skip(1).len() && s.skip(1)[k] == r[0];
                assert(s[k + 1] == r[0]);
            }
        }
        assert(s[0] != r[0]) by {
            if s[0] == r[0] {
                assert(s.contains(r[0]));
            }
        }
        assert(seq![s[0]] + s.skip(1) =~= s);
    }
    if p.len() == 0 {
        if s.len() == 0 {
            lemma_replace_leading(seq![], r, p);
            assert(r + Seq::<char>::empty() =~= r);
            assert(replace_all(Seq::<char>::empty(), r, p) == Seq::<char>::empty());
            assert(p + Seq::<char>::empty() =~= s);
        } else {
            let rest = replace_all(s.skip(1), p, r);
            lemma_replace_round_trip(s.skip(1), p, r);
            assert(r + seq![s[0]] + rest =~= r + (seq![s[0]] + rest));
            lemma_replace_leading(seq![s[0]] + rest, r, p);
            lemma_replace_keeps_head(s[0], rest, r, p);
            assert(p + (seq![s[0]] + s.skip(1)) =~= s);
        }
    } else if s.len() < p.len() {
        lemma_replace_absent(s, r, p);
    } else if s.take(p.len() as int) == p {
        let tail = s.skip(p.len() as int);
        assert(!tail.contains(r[0])) by {
            if tail.contains(r[0]) {
                let k = choose|k: int| 0 <= k < tail.len() && tail[k] == r[0];
                assert(s[k + p.len()] == r[0]);
            }
        }
        lemma_replace_round_trip(tail, p, r);
        lemma_replace_leading(replace_all(tail, p, r), r, p);
        assert(p + tail =~= s);
    } else {
        let rest = replace_all(s.skip(1), p, r);
        lemma_replace_round_trip(s.skip(1), p, r);
        lemma_replace_keeps_head(s[0], rest, r, p);
    }
}

// ---------------------------------------------------------------------------
// Numbers as text
// ---------------------------------------------------------------------------

/// The decimal digit for `d < 10`.
pub open spec fn digit_of(d: nat) -> char {
    if d == 0 {
        '0'
    } else if d == 1 {
        '1'
    } else if d == 2 {
        '2'
    } else if d == 3 {
        '3'
    } else if d == 4 {
        '4'
    } else if d == 5 {
        '5'
    } else if d == 6 {
        '6'
    } else if d == 7 {
        '7'
    } else if d == 8 {
        '8'
    } else {
        '9'
    }
}

/// The decimal digits of `n`, without sign or leading zeros.
pub open spec fn decimal(n: nat) -> Seq<char>
    decreases n,
{
    if n < 10 {
        seq![digit_of(n)]
    } else {
        decimal(n / 10) + seq![digit_of(n % 10)]
    }
}

pub open spec fn is_digit(c: char) -> bool {
    '0' <= c <= '9'
}

pub open spec fn digit_value(c: char) -> nat {
    (c as u32 - 48) as nat
}

/// The number written by the decimal digits `d`.
pub open spec fn digits_value(d: Seq<char>) -> nat
    decreases d.len(),
{
    if d.len() == 0 {
        0
    } else {
        digits_value(d.drop_last()) * 10 + digit_value(d.last())
    }
}

/// The digits of an unsigned number: one leading `+` is allowed.
pub open spec fn unsigned_digits(s: Seq<char>) -> Seq<char> {
    if s.len() > 0 && s[0] == '+' {
        s.skip(1)
    } else {
        s
    }
}

/// An unsigned number up to `max` as `str::parse` reads it: an optional `+`
/// and one or more ASCII digits.
pub open spec fn parse_unsigned(s: Seq<char>, max: nat) -> Option<nat> {
    let d = unsigned_digits(s);
    if d.len() > 0 && (forall|i: int| 0 <= i < d.len() ==> is_digit(#[trigger] d[i]))
        && digits_value(d) <= max {
        Some(digits_value(d))
    } else {
        None
    }
}

fn digit_char(d: u128) -> (c: char)
    requires
        d < 10,
    ensures
        c == digit_of(d as nat),
{
    if d == 0 {
        '0'
    } else if d == 1 {
        '1'
    } else if d == 2 {
        '2'
    } else if d == 3 {
        '3'
    } else if d == 4 {
        '4'
    } else if d == 5 {
        '5'
    } else if d == 6 {
        '6'
    } else if d == 7 {
        '7'
    } else if d == 8 {
        '8'
    } else {
        '9'
    }
}

/// The decimal digits of `n`.
pub fn decimal_chars(n: u128) -> (r: Vec<char>)
    ensures
        r@ == decimal(n as nat),
    decreases n,
{
    if n < 10 {
        let mut v: Vec<char> = Vec::new();
        v.push(digit_char(n));
        assert(v@ =~= decimal(n as nat));
        v
    } else {
        let mut v = decimal_chars(n / 10);
        v.push(digit_char(n % 10));
        assert(v@ =~= decimal(n as nat));
        v
    }
}

/// Reads an unsigned number up to `max`, as `parse_unsigned` defines it.
pub fn parse_unsigned_chars(s: &[char], max: u128) -> (r: Option<u128>)
    ensures
        match parse_unsigned(s@, max as nat) {
            Some(v) => r == Some(v as u128),
            None => r is None,
        },
{
    let start: usize = if s.len() > 0 && s[0] == '+' {
        1
    } else {
        0
    };
    let ghost d = unsigned_digits(s@);
    assert(d =~= s@.skip(start as int));
    if start >= s.len() {
        return None;
    }
    let mut i: usize = start;
    let mut v: u128 = 0;
    let mut over = false;
    assert(d.take(0) =~= Seq::<char>::empty());
    while i < s.len()
        invariant
            start <= i <= s.len(),
            d == s@.skip(start as int),
            d == unsigned_digits(s@),
            forall|k: int| 0 <= k < i - start ==> is_digit(#[trigger] d[k]),
            !over ==> v as nat == digits_value(d.take(i - start)) && v <= max,
            over ==> digits_value(d.take(i - start)) > max,
        decreases s.len() - i,
    {
        let c = s[i];
        assert(d[i - start] == c);
        if c < '0' || c > '9' {
            assert(!is_digit(d[i - start]));
            assert(!(forall|k: int| 0 <= k < d.len() ==> is_digit(#[trigger] d[k])));
            assert(parse_unsigned(s@, max as nat) is None);
            return None;
        }
        let dv = (c as u32 - 48) as u128;
        let ghost k = i - start;
        assert(d.take(k + 1).drop_last() =~= d.take(k));
        assert(d.take(k + 1).last() == c);
        assert(digits_value(d.take(k + 1)) == digits_value(d.take(k)) * 10 + dv);
        if !over {
            if dv > max || v > (max - dv) / 10 {
                assert(v * 10 + dv > max) by (nonlinear_arith)
                    requires
                        dv > max || v > (max - dv) / 10,
                        dv <= 9,
                ;
                over = true;
            } else {
                assert(v * 10 + dv <= max) by (nonlinear_arith)
                    requires
                        v <= (max - dv) / 10,
                        dv <= max,
                ;
                v = v * 10 + dv;
            }
        }
        i = i + 1;
    }
    assert(d.take(i - start) =~= d);
    if over {
        None
    } else {
        Some(v)
    }
}

// ---------------------------------------------------------------------------
// Conversions
// ---------------------------------------------------------------------------

/// The characters of `s`, in order.
pub fn chars_of(s: &str) -> (r: Vec<char>)
    ensures
        r@ == s@,
{
    let mut r: Vec<char> = Vec::new();
    for c in it: s.chars()
        invariant
            r@ == it.seq().take(it.index() as int),
    {
        r.push(c);
    }
    assert(r@ =~= s@);
    r
}

/// Relies on `String: FromIterator<&char>`: the string holds the given characters in order.
#[verifier::external_body]
pub(crate) fn string_of(v: &[char]) -> (r: String)
    ensures
        r@ == v@,
{
    v.iter().collect()
}

// ---------------------------------------------------------------------------
// Search and splice
// ---------------------------------------------------------------------------

/// Whether `p` occurs in `s` at position `i`.
pub fn matches_at(s: &[char], i: usize, p: &[char]) -> (r: bool)
    ensures
        r == occurs_at(s@, p@, i as int),
{
    if i > s.len() || p.len() > s.len() - i {
        return false;
    }
    let mut j: usize = 0;
    while j < p.len()
        invariant
            i + p.len() <= s.len(),
            j <= p.len(),
            forall|k: int| 0 <= k < j ==> s@[i + k] == p@[k],
        decreases p.len() - j,
    {
        if s[i + j] != p[j] {
            assert(s@.subrange(i as int, i + p.len())[j as int] != p@[j as int]);
            return false;
        }
        j = j + 1;
    }
    assert(s@.subrange(i as int, i + p.len()) =~= p@);
    true
}

/// The position of the first occurrence of `p` in `s`.
pub fn find_chars(s: &[char], p: &[char]) -> (r: Option<usize>)
    ensures
        match r {
            Some(i) => first_match(s@, p@) == Some(i as int) && occurs_at(s@, p@, i as int),
            None => first_match(s@, p@) is None,
        },
{
    if p.len() > s.len() {
        return None;
    }
    let mut i: usize = 0;
    loop
        invariant
            p.len() <= s.len(),
            i <= s.len() - p.len(),
            find_from(s@, p@, i as int) == first_match(s@, p@),
        decreases s.len() - p.len() - i,
    {
        if matches_at(s, i, p) {
            return Some(i);
        }
        if i == s.len() - p.len() {
            assert(find_from(s@, p@, i + 1) is None);
            return None;
        }
        i = i + 1;
    }
}

/// `s` with `[start, end)` replaced by `r`; nothing outside the range changes.
pub fn splice_chars(s: &[char], start: usize, end: usize, r: &[char]) -> (out: Vec<char>)
    requires
        start <= end <= s.len(),
    ensures
        out@ == splice(s@, start as int, end as int, r@),
{
    let mut out: Vec<char> = Vec::new();
    out.extend_from_slice(slice_subrange(s, 0, start));
    out.extend_from_slice(r);
    out.extend_from_slice(slice_subrange(s, end, s.len()));
    assert(out@ =~= splice(s@, start as int, end as int, r@));
    out
}

/// Whether `a` and `b` hold the same characters.
pub fn same_chars(a: &[char], b: &[char]) -> (r: bool)
    ensures
        r == (a@ == b@),
{
    if a.len() != b.len() {
        return false;
    }
    let r = matches_at(a, 0, b);
    assert(a@.subrange(0, b@.len() as int) =~= a@);
    r
}

// ---------------------------------------------------------------------------
// Literal replacement
// ---------------------------------------------------------------------------

/// Every non-overlapping occurrence of `p` in `s`, scanning from the left,
/// replaced by `r`.
pub fn replace_all_chars(s: &[char], p: &[char], r: &[char]) -> (out: Vec<char>)
    ensures
        out@ == replace_all(s@, p@, r@),
{
    let mut out: Vec<char> = Vec::new();
    let mut i: usize = 0;
    assert(s@.skip(0) =~= s@);
    while i < s.len()
        invariant
            i <= s.len(),
            out@ + replace_all(s@.skip(i as int), p@, r@) == replace_all(s@, p@, r@),
        decreases s.len() - i,
    {
        let ghost rest = s@.skip(i as int);
        if p.len() == 0 {
            assert(rest.skip(1) =~= s@.skip(i + 1));
            out.extend_from_slice(r);
            out.push(s[i]);
            i = i + 1;
            assert(out@ + replace_all(s@.skip(i as int), p@, r@) =~= replace_all(s@, p@, r@));
        } else if p.len() > s.len() - i {
            assert(replace_all(rest, p@, r@) == rest);
            out.extend_from_slice(slice_subrange(s, i, s.len()));
            assert(out@ =~= replace_all(s@, p@, r@));
            return out;
        } else if matches_at(s, i, p) {
            assert(rest.take(p.len() as int) =~= s@.subrange(i as int, i + p.len()));
            assert(rest.skip(p.len() as int) =~= s@.skip(i + p.len()));
            out.extend_from_slice(r);
            i = i + p.len();
            assert(out@ + replace_all(s@.skip(i as int), p@, r@) =~= replace_all(s@, p@, r@));
        } else {
            assert(rest.take(p.len() as int) =~= s@.subrange(i as int, i + p.len()));
            assert(rest.skip(1) =~= s@.skip(i + 1));
            out.push(s[i]);
            i = i + 1;
            assert(out@ + replace_all(s@.skip(i as int), p@, r@) =~= replace_all(s@, p@, r@));
        }
    }
    if p.len() == 0 {
        out.extend_from_slice(r);
    }
    assert(out@ =~= replace_all(s@, p@, r@));
    out
}

// ---------------------------------------------------------------------------
// Lines
// ---------------------------------------------------------------------------

/// The offset at which line `n + 1` (1-based) begins, or the end of `s`.
pub fn line_start_offset(s: &[char], n: u128) -> (r: usize)
    ensures
        r == line_start(s@, n as nat),
        r <= s.len(),
{
    let mut i: usize = 0;
    let mut k: u128 = n;
    while k > 0 && i < s.len()
        invariant
            i <= s.len(),
            line_offset_from(s@, i as int, k as nat) == line_start(s@, n as nat),
        decreases s.len() - i,
    {
        if s[i] == '\n' {
            k = k - 1;
        }
        i = i + 1;
    }
    i
}

/// Number of lines in `s`.
pub fn count_lines(s: &[char]) -> (r: u128)
    ensures
        r == line_count(s@),
{
    let mut i: usize = 0;
    let mut n: u128 = 0;
    assert(s@.skip(0) =~= s@);
    while i < s.len()
        invariant
            i <= s.len(),
            n <= i,
            n + newline_count(s@.skip(i as int)) == newline_count(s@),
        decreases s.len() - i,
    {
        assert(s@.skip(i as int).skip(1) =~= s@.skip(i + 1));
        if s[i] == '\n' {
            n = n + 1;
        }
        i = i + 1;
    }
    assert(s@.skip(i as int) =~= Seq::<char>::empty());
    if s.len() > 0 && s[s.len() - 1] != '\n' {
        n + 1
    } else {
        n
    }
}

/// The position of the first newline at or after `i`, or the end of `s`.
fn next_newline_index(s: &[char], i: usize) -> (r: usize)
    requires
        i <= s.len(),
    ensures
        r as int == next_newline(s@, i as int),
        i <= r <= s.len(),
{
    let mut j: usize = i;
    while j < s.len() && s[j] != '\n'
        invariant
            i <= j <= s.len(),
            next_newline(s@, j as int) == next_newline(s@, i as int),
        decreases s.len() - j,
    {
        j = j + 1;
    }
    j
}

/// The lines of `s`, as `str::lines` yields them.
pub fn split_lines(s: &[char]) -> (r: Vec<Vec<char>>)
    ensures
        view_lines(r@) == lines_of(s@),
{
    let mut r: Vec<Vec<char>> = Vec::new();
    let mut i: usize = 0;
    while i < s.len()
        invariant
            i <= s.len(),
            view_lines(r@) + lines_from(s@, i as int) == lines_of(s@),
        decreases s.len() - i,
    {
        let j = next_newline_index(s, i);
        let mut line: Vec<char> = Vec::new();
        line.extend_from_slice(slice_subrange(s, i, j));
        if j < s.len() {
            if line.len() > 0 && line[line.len() - 1] == '\r' {
                line.pop();
            }
            assert(line@ == strip_cr(s@.subrange(i as int, j as int)));
            r.push(line);
            assert(view_lines(r@) =~= view_lines(r@.drop_last()) + seq![r@.last()@]);
            i = j + 1;
        } else {
            assert(lines_from(s@, i as int) == seq![s@.subrange(i as int, s.len() as int)]);
            assert(line@ =~= s@.subrange(i as int, s.len() as int));
            let ghost old_r = r@;
            r.push(line);
            assert(r@.drop_last() == old_r);
            assert(view_lines(r@) =~= view_lines(r@.drop_last()) + seq![r@.last()@]);
            assert(view_lines(r@) =~= lines_of(s@));
            return r;
        }
    }
    assert(view_lines(r@) =~= lines_of(s@));
    r
}

/// The lines joined with `sep` between consecutive lines.
pub fn join_lines(lines: &[Vec<char>], sep: &[char]) -> (r: Vec<char>)
    ensures
        r@ == join(view_lines(lines@), sep@),
{
    let mut r: Vec<char> = Vec::new();
    let mut k: usize = 0;
    while k < lines.len()
        invariant
            k <= lines.len(),
            r@ == join(view_lines(lines@.take(k as int)), sep@),
        decreases lines.len() - k,
    {
        if k > 0 {
            r.extend_from_slice(sep);
        }
        r.extend_from_slice(lines[k].as_slice());
        assert(view_lines(lines@.take(k + 1)).drop_last() =~= view_lines(lines@.take(k as int)));
        k = k + 1;
    }
    assert(lines@.take(k as int) =~= lines@);
    r
}

/// Whether `c` is white space.
pub fn is_white_char(c: char) -> (r: bool)
    ensures
        r == is_white(c),
{
    let u = c as u32;
    (0x9 <= u && u <= 0xD) || u == 0x20 || u == 0x85 || u == 0xA0 || u == 0x1680 || (0x2000 <= u
        && u <= 0x200A) || u == 0x2028 || u == 0x2029 || u == 0x202F || u == 0x205F || u == 0x3000
}

/// The range of `s` left after trimming white space at both ends.
pub fn trim_bounds(s: &[char]) -> (r: (usize, usize))
    ensures
        r.0 <= r.1 <= s.len(),
        s@.subrange(r.0 as int, r.1 as int) == trim(s@),
{
    let mut a: usize = 0;
    assert(s@.skip(0) =~= s@);
    while a < s.len() && is_white_char(s[a])
        invariant
            a <= s.len(),
            trim_start(s@.skip(a as int)) == trim_start(s@),
        decreases s.len() - a,
    {
        assert(s@.skip(a as int).skip(1) =~= s@.skip(a + 1));
        a = a + 1;
    }
    assert(s@.skip(a as int) =~= s@.subrange(a as int, s.len() as int));
    let mut b: usize = s.len();
    while b > a && is_white_char(s[b - 1])
        invariant
            a <= b <= s.len(),
            trim_end(s@.subrange(a as int, b as int)) == trim(s@),
        decreases b,
    {
        assert(s@.subrange(a as int, b as int).drop_last() =~= s@.subrange(a as int, b - 1));
        b = b - 1;
    }
    (a, b)
}

/// Whether `s` without leading and trailing white space equals `m`.
pub fn trimmed_equals(s: &[char], m: &[char]) -> (r: bool)
    ensures
        r == (trim(s@) == m@),
{
    let (a, b) = trim_bounds(s);
    same_chars(slice_subrange(s, a, b), m)
}

} // verus!
