//! Small verified operations on text, over its characters.

use vstd::prelude::*;
use vstd::std_specs::iter::IteratorSpec;

verus! {

broadcast use vstd::string::group_string_axioms;

/// The characters of `s`, in order.
pub fn chars_of(s: &str) -> (chars: Vec<char>)
    ensures
        chars@ == s@,
{
    let mut chars: Vec<char> = Vec::new();
    for c in it: s.chars()
        invariant
            it.seq() == s@,
            chars@ == s@.take(it.index() as int),
    {
        chars.push(c);
    }
    chars
}

/// Whether `s` begins with `prefix`.
pub fn starts_with(s: &str, prefix: &str) -> (found: bool)
    ensures
        found == prefix@.is_prefix_of(s@),
{
    let mut rest = s.chars();
    let mut wanted = prefix.chars();
    let ghost mut seen: int = 0;
    loop
        invariant
            0 <= seen <= s@.len(),
            seen <= prefix@.len(),
            rest.remaining() == s@.skip(seen),
            wanted.remaining() == prefix@.skip(seen),
            s@.take(seen) == prefix@.take(seen),
            rest.obeys_prophetic_iter_laws(),
            wanted.obeys_prophetic_iter_laws(),
            wanted.decrease() is Some,
        decreases prefix@.len() - seen,
    {
        match wanted.next() {
            None => {
                return true;
            },
            Some(w) => {
                match rest.next() {
                    None => {
                        return false;
                    },
                    Some(c) => {
                        if c != w {
                            return false;
                        }
                        proof {
                            seen = seen + 1;
                        }
                    },
                }
            },
        }
    }
}

/// Whether `a` and `b` are the same text.
pub fn same_text(a: &str, b: &str) -> (same: bool)
    ensures
        same == (a@ == b@),
{
    let same = starts_with(a, b) && starts_with(b, a);
    assert(same ==> a@ =~= b@);
    same
}

} // verus!
