//! Normalization of the paths that file discovery reports: forward slashes,
//! relative to the scan root without a leading `./`.

use vstd::prelude::*;
use crate::glob::chars_of;

verus! {

/// `s` with every backslash turned into a forward slash.
pub open spec fn forward_slashes(s: Seq<char>) -> Seq<char> {
    s.map_values(|c: char| if c == '\\' { '/' } else { c })
}

/// The normal form of a path: forward slashes, and one leading `./` dropped.
pub open spec fn normalized(s: Seq<char>) -> Seq<char> {
    let t = forward_slashes(s);
    if t.len() >= 2 && t[0] == '.' && t[1] == '/' {
        t.subrange(2, t.len() as int)
    } else {
        t
    }
}

/// Relies on String::push: appends one character to the string.
#[verifier::external_body]
fn push_char(s: &mut String, c: char)
    ensures
        final(s)@ == old(s)@.push(c),
{
    s.push(c)
}

/// Normalizes a path as reported by file discovery.
pub fn normalize_path(path: &str) -> (r: String)
    ensures
        r@ == normalized(path@),
{
    let cs = chars_of(path);
    let ghost t = forward_slashes(path@);
    let n = cs.len();
    let start: usize = if n >= 2 && cs[0] == '.' && (cs[1] == '/' || cs[1] == '\\') {
        2
    } else {
        0
    };
    let mut r = String::new();
    let mut i: usize = start;
    while i < n
        invariant
            cs@ == path@,
            n == cs.len(),
            t == forward_slashes(path@),
            start <= i <= n,
            r@ == t.subrange(start as int, i as int),
        decreases n - i,
    {
        let c = cs[i];
        let d = if c == '\\' {
            '/'
        } else {
            c
        };
        assert(t[i as int] == d);
        push_char(&mut r, d);
        assert(r@ =~= t.subrange(start as int, i + 1));
        i += 1;
    }
    assert(r@ =~= normalized(path@));
    r
}

} // verus!
