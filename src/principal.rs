//! Principals (wallet addresses) and sets of principals held in a `Vec`.

use vstd::prelude::*;

verus! {

/// True when some element of `s` is the principal `p`.
pub open spec fn holds_principal(s: Seq<String>, p: Seq<char>) -> bool {
    exists|i: int| 0 <= i < s.len() && #[trigger] s[i]@ == p
}

/// No principal appears twice in `s`: the sequence is a set.
pub open spec fn distinct_principals(s: Seq<String>) -> bool {
    forall|i: int, j: int| 0 <= i < j < s.len() ==> #[trigger] s[i]@ != #[trigger] s[j]@
}

/// The set `s` with `p` added: unchanged when `p` is already there.
pub open spec fn add_principal(s: Seq<String>, p: String) -> Seq<String> {
    if holds_principal(s, p@) {
        s
    } else {
        s.push(p)
    }
}

/// Whether `p` is one of the principals of `v`.
pub fn contains_principal(v: &Vec<String>, p: &String) -> (r: bool)
    ensures
        r == holds_principal(v@, p@),
{
    let mut i: usize = 0;
    while i < v.len()
        invariant
            i <= v@.len(),
            forall|k: int| 0 <= k < i ==> #[trigger] v@[k]@ != p@,
        decreases v@.len() - i,
    {
        if v[i] == *p {
            return true;
        }
        i = i + 1;
    }
    false
}

/// Adds `p` to the set `v` unless it is already there.
pub fn insert_principal(v: &mut Vec<String>, p: &String)
    ensures
        final(v)@ == add_principal(old(v)@, *p),
        distinct_principals(old(v)@) ==> distinct_principals(final(v)@),
{
    if !contains_principal(v, p) {
        v.push(p.clone());
    }
}

} // verus!
