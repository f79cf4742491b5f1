//! Glob patterns over normalized, forward-slash relative paths.
//!
//! The dialect: `*` stands for any run of characters without a `/`, `?` for
//! one character other than `/`, `**` for any run of characters including `/`,
//! and `**/` may also stand for nothing at all (so `**/x` matches `x`). Every
//! other character stands for itself, case-sensitively. A pattern matches a
//! path only when it accounts for the whole path.

use vstd::prelude::*;
use vstd::string::*;

verus! {

/// Whether the pattern from position `i` on matches the path from position `j` on.
pub open spec fn matches_from(p: Seq<char>, t: Seq<char>, i: int, j: int) -> bool
    decreases (p.len() - i) + (t.len() - j),
{
    if i < 0 || j < 0 || i > p.len() || j > t.len() {
        false
    } else if i == p.len() {
        j == t.len()
    } else if p[i] == '*' && i + 1 < p.len() && p[i + 1] == '*' {
        matches_from(p, t, i + 2, j)
            || (i + 2 < p.len() && p[i + 2] == '/' && matches_from(p, t, i + 3, j))
            || (j < t.len() && matches_from(p, t, i, j + 1))
    } else if p[i] == '*' {
        matches_from(p, t, i + 1, j) || (j < t.len() && t[j] != '/' && matches_from(
            p,
            t,
            i,
            j + 1,
        ))
    } else if p[i] == '?' {
        j < t.len() && t[j] != '/' && matches_from(p, t, i + 1, j + 1)
    } else {
        j < t.len() && t[j] == p[i] && matches_from(p, t, i + 1, j + 1)
    }
}

/// Whether the whole pattern matches the whole path.
pub open spec fn glob_matches(pattern: Seq<char>, path: Seq<char>) -> bool {
    matches_from(pattern, path, 0, 0)
}

/// A pattern is well-formed when it is not empty and holds no run of three
/// or more `*`.
pub open spec fn pattern_well_formed(pattern: Seq<char>) -> bool {
    pattern.len() > 0 && !exists|k: int|
        0 <= k && k + 2 < pattern.len() && #[trigger] pattern[k] == '*' && pattern[k + 1] == '*'
            && pattern[k + 2] == '*'
}

/// The characters of a string, in order.
pub fn chars_of(s: &str) -> (v: Vec<char>)
    ensures
        v@ == s@,
{
    let len = s.unicode_len();
    let mut v: Vec<char> = Vec::new();
    let mut k: usize = 0;
    while k < len
        invariant
            len == s@.len(),
            k <= len,
            v@ == s@.subrange(0, k as int),
        decreases len - k,
    {
        v.push(s.get_char(k));
        k += 1;
    }
    assert(v@ =~= s@);
    v
}

/// Checks a pattern for well-formedness.
pub fn is_well_formed_pattern(pattern: &str) -> (r: bool)
    ensures
        r == pattern_well_formed(pattern@),
{
    let p = chars_of(pattern);
    if p.len() == 0 {
        return false;
    }
    let mut k: usize = 0;
    while p.len() - k > 2
        invariant
            p@ == pattern@,
            p.len() > 0,
            k < p.len(),
            forall|q: int|
                0 <= q < k && q + 2 < p@.len() ==> !(#[trigger] p@[q] == '*' && p@[q + 1] == '*'
                    && p@[q + 2] == '*'),
        decreases p.len() - k,
    {
        if p[k] == '*' && p[k + 1] == '*' && p[k + 2] == '*' {
            return false;
        }
        k += 1;
    }
    true
}

/// Computes the match table row of pattern position `i`, for every path position.
fn match_row(p: &Vec<char>, t: &Vec<char>, i: usize, table: &Vec<Vec<bool>>) -> (row: Vec<bool>)
    requires
        i < p.len(),
        table.len() == p.len() - i,
        forall|k: int| 0 <= k < table.len() ==> #[trigger] table[k].len() == t.len() + 1,
        forall|k: int, j: int|
            0 <= k < table.len() && 0 <= j <= t.len() ==> #[trigger] table[k][j] == matches_from(
                p@,
                t@,
                p.len() - k,
                j,
            ),
    ensures
        row.len() == t.len() + 1,
        forall|j: int| 0 <= j <= t.len() ==> #[trigger] row[j] == matches_from(p@, t@, i as int, j),
{
    let n = p.len();
    let m = t.len();
    let r = n - i;
    let mut row: Vec<bool> = Vec::new();
    row.push(false);
    let mut c: usize = 0;
    while c < m
        invariant
            row.len() == c + 1,
            c <= m,
        decreases m - c,
    {
        row.push(false);
        c += 1;
    }
    let ghost gp = p@;
    let ghost gt = t@;
    let mut j: usize = m + 1;
    while j > 0
        invariant
            j <= m + 1,
            m == t.len(),
            n == p.len(),
            r == n - i,
            i < n,
            row.len() == m + 1,
            table.len() == r,
            gp == p@,
            gt == t@,
            forall|k: int| 0 <= k < table.len() ==> #[trigger] table[k].len() == t.len() + 1,
            forall|k: int, jj: int|
                0 <= k < table.len() && 0 <= jj <= t.len() ==> #[trigger] table[k][jj]
                    == matches_from(p@, t@, p.len() - k, jj),
            forall|jj: int| j <= jj <= m ==> #[trigger] row[jj] == matches_from(gp, gt, i as int, jj),
        decreases j,
    {
        j -= 1;
        assert(table[r - 1].len() == m + 1);
        assert(i + 2 <= n ==> table[r - 2].len() == m + 1);
        assert(i + 3 <= n ==> table[r - 3].len() == m + 1);
        let below = table[r - 1][j];
        let v = if p[i] == '*' && i + 1 < n && p[i + 1] == '*' {
            let skip_two = if i + 2 <= n {
                table[r - 2][j]
            } else {
                false
            };
            let skip_three = if i + 2 < n && p[i + 2] == '/' {
                table[r - 3][j]
            } else {
                false
            };
            let extend = j < m && row[j + 1];
            skip_two || skip_three || extend
        } else if p[i] == '*' {
            below || (j < m && t[j] != '/' && row[j + 1])
        } else if p[i] == '?' {
            j < m && t[j] != '/' && table[r - 1][j + 1]
        } else {
            j < m && t[j] == p[i] && table[r - 1][j + 1]
        };
        proof {
            assert(table[r - 1][j as int] == matches_from(gp, gt, i + 1, j as int));
            if j < m {
                assert(table[r - 1][j + 1] == matches_from(gp, gt, i + 1, j + 1));
            }
            if i + 2 <= n {
                assert(table[r - 2][j as int] == matches_from(gp, gt, i + 2, j as int));
            }
            if i + 3 <= n {
                assert(table[r - 3][j as int] == matches_from(gp, gt, i + 3, j as int));
            }
        }
        row.set(j, v);
    }
    row
}

/// Whether `pattern` matches the whole of `path`.
pub fn glob_match(pattern: &str, path: &str) -> (r: bool)
    ensures
        r == glob_matches(pattern@, path@),
{
    let p = chars_of(pattern);
    let t = chars_of(path);
    let n = p.len();
    let m = t.len();
    let mut last: Vec<bool> = Vec::new();
    let mut c: usize = 0;
    while c < m
        invariant
            last.len() == c,
            c <= m,
            forall|jj: int| 0 <= jj < c ==> !#[trigger] last[jj],
        decreases m - c,
    {
        last.push(false);
        c += 1;
    }
    last.push(true);
    let mut table: Vec<Vec<bool>> = Vec::new();
    table.push(last);
    let mut i: usize = n;
    while i > 0
        invariant
            i <= n,
            n == p.len(),
            m == t.len(),
            table.len() == n - i + 1,
            forall|k: int| 0 <= k < table.len() ==> #[trigger] table[k].len() == t.len() + 1,
            forall|k: int, j: int|
                0 <= k < table.len() && 0 <= j <= t.len() ==> #[trigger] table[k][j]
                    == matches_from(p@, t@, p.len() - k, j),
        decreases i,
    {
        i -= 1;
        let row = match_row(&p, &t, i, &table);
        table.push(row);
    }
    assert(table[n as int].len() == m + 1);
    let r = table[n][0];
    r
}

} // verus!
