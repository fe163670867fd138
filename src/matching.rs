//! Pattern matching in the manner of SQL `LIKE`: `%` stands for any run of
//! characters, `_` for exactly one, and ASCII letters match regardless of case.

use vstd::prelude::*;
use vstd::string::StrSliceExecFns;

verus! {

/// ASCII case folding: upper-case ASCII letters map to their lower-case code.
pub open spec fn fold_code(c: char) -> u32 {
    if 65 <= (c as u32) && (c as u32) <= 90 {
        (c as u32 + 32) as u32
    } else {
        c as u32
    }
}

/// Two characters are the same letter when they agree after ASCII case folding.
pub open spec fn same_letter_spec(a: char, b: char) -> bool {
    fold_code(a) == fold_code(b)
}

/// Whether the pattern suffix `p[i..]` matches the text suffix `t[j..]`.
pub open spec fn like_at(p: Seq<char>, t: Seq<char>, i: int, j: int) -> bool
    decreases p.len() - i + t.len() - j,
{
    if i < 0 || j < 0 || i > p.len() || j > t.len() {
        false
    } else if i == p.len() {
        j == t.len()
    } else if p[i] == '%' {
        like_at(p, t, i + 1, j) || (j < t.len() && like_at(p, t, i, j + 1))
    } else if j == t.len() {
        false
    } else if p[i] == '_' || same_letter_spec(p[i], t[j]) {
        like_at(p, t, i + 1, j + 1)
    } else {
        false
    }
}

/// The pattern that finds `q` anywhere in a text: `%q%`.
pub open spec fn like_pattern(q: Seq<char>) -> Seq<char> {
    seq!['%'] + q + seq!['%']
}

/// Compares two characters after ASCII case folding.
pub fn same_letter(a: char, b: char) -> (r: bool)
    ensures
        r == same_letter_spec(a, b),
{
    let x: u32 = a as u32;
    let y: u32 = b as u32;
    let fx: u32 = if 65 <= x && x <= 90 { x + 32 } else { x };
    let fy: u32 = if 65 <= y && y <= 90 { y + 32 } else { y };
    fx == fy
}

/// The characters of `s`, in order.
pub fn chars_of(s: &str) -> (r: Vec<char>)
    ensures
        r@ == s@,
{
    let n = s.unicode_len();
    let mut r: Vec<char> = Vec::new();
    let mut i: usize = 0;
    while i < n
        invariant
            n == s@.len(),
            i <= n,
            r@ == s@.subrange(0, i as int),
        decreases n - i,
    {
        r.push(s.get_char(i));
        i = i + 1;
    }
    assert(r@ =~= s@);
    r
}

/// Decides `like_at(p, t, 0, 0)` row by row, from the end of the pattern
/// back to its start.
pub fn like_match(p: &Vec<char>, t: &Vec<char>) -> (r: bool)
    ensures
        r == like_at(p@, t@, 0, 0),
{
    let n = p.len();
    let m = t.len();
    // row[k] is like_at(p, t, i, k) for k < m; row_end is like_at(p, t, i, m).
    let mut row: Vec<bool> = Vec::new();
    let mut k: usize = 0;
    while k < m
        invariant
            k <= m,
            m == t@.len(),
            n == p@.len(),
            row@.len() == k,
            forall|x: int| 0 <= x < k ==> row@[x] == like_at(p@, t@, n as int, x),
        decreases m - k,
    {
        row.push(false);
        k = k + 1;
    }
    let mut row_end: bool = true;
    let mut i: usize = n;
    while i > 0
        invariant
            i <= n,
            m == t@.len(),
            n == p@.len(),
            row@.len() == m,
            row_end == like_at(p@, t@, i as int, m as int),
            forall|x: int| 0 <= x < m ==> row@[x] == like_at(p@, t@, i as int, x),
        decreases i,
    {
        i = i - 1;
        let c = p[i];
        let end: bool = if c == '%' { row_end } else { false };
        let mut cur: Vec<bool> = Vec::new();
        let mut k: usize = 0;
        while k < m
            invariant
                k <= m,
                cur@.len() == k,
        decreases m - k,
        {
            cur.push(false);
            k = k + 1;
        }
        let mut j: usize = m;
        while j > 0
            invariant
                i < n,
                j <= m,
                m == t@.len(),
                n == p@.len(),
                c == p@[i as int],
                row@.len() == m,
                cur@.len() == m,
                end == like_at(p@, t@, i as int, m as int),
                row_end == like_at(p@, t@, i + 1, m as int),
                forall|x: int| 0 <= x < m ==> row@[x] == like_at(p@, t@, i + 1, x),
                forall|x: int| j <= x < m ==> cur@[x] == like_at(p@, t@, i as int, x),
            decreases j,
        {
            j = j - 1;
            let later: bool = if j + 1 < m { cur[j + 1] } else { end };
            let diag: bool = if j + 1 < m { row[j + 1] } else { row_end };
            let v: bool = if c == '%' {
                row[j] || later
            } else if c == '_' || same_letter(c, t[j]) {
                diag
            } else {
                false
            };
            cur.set(j, v);
        }
        row = cur;
        row_end = end;
    }
    if m == 0 {
        row_end
    } else {
        row[0]
    }
}

} // verus!
