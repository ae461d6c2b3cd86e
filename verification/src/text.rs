//! Verified helpers on string slices: character-wise equality, prefix
//! testing, the leading-dash test and locating the first '='.

use vstd::prelude::*;
use vstd::string::StrSliceExecFns;

use crate::model::eq_index;
use crate::model::has_eq;
use crate::model::is_prefix;
use crate::model::lemma_eq_index_at;
use crate::model::lemma_eq_index_none;
use crate::model::starts_dash;

verus! {

/// Character-for-character equality of two string slices.
pub fn str_eq(a: &str, b: &str) -> (r: bool)
    ensures
        r == (a@ == b@),
{
    let alen = a.unicode_len();
    let blen = b.unicode_len();
    if alen != blen {
        return false;
    }
    let mut i: usize = 0;
    while i < alen
        invariant
            i <= alen,
            alen == a@.len(),
            alen == b@.len(),
            forall|j: int| 0 <= j < i ==> a@[j] == b@[j],
        decreases alen - i,
    {
        if a.get_char(i) != b.get_char(i) {
            return false;
        }
        i += 1;
    }
    proof {
        assert(a@ =~= b@);
    }
    true
}

/// True when `s` begins with `p`.
pub fn str_starts_with(s: &str, p: &str) -> (r: bool)
    ensures
        r == is_prefix(p@, s@),
{
    let plen = p.unicode_len();
    let slen = s.unicode_len();
    if plen > slen {
        return false;
    }
    let mut i: usize = 0;
    while i < plen
        invariant
            i <= plen,
            plen == p@.len(),
            slen == s@.len(),
            plen <= slen,
            forall|j: int| 0 <= j < i ==> s@[j] == p@[j],
        decreases plen - i,
    {
        if s.get_char(i) != p.get_char(i) {
            proof {
                assert(s@.subrange(0, p@.len() as int)[i as int] != p@[i as int]);
            }
            return false;
        }
        i += 1;
    }
    proof {
        assert(s@.subrange(0, p@.len() as int) =~= p@);
    }
    true
}

/// True when the token begins with a dash.
pub fn begins_with_dash(s: &str) -> (r: bool)
    ensures
        r == starts_dash(s@),
{
    if s.unicode_len() == 0 {
        false
    } else {
        s.get_char(0) == '-'
    }
}

/// The index of the first '=' in `s`, if any.
pub fn find_eq(s: &str) -> (r: Option<usize>)
    ensures
        match r {
            Some(i) => has_eq(s@) && i == eq_index(s@),
            None => !has_eq(s@),
        },
{
    let n = s.unicode_len();
    let mut i: usize = 0;
    while i < n
        invariant
            i <= n,
            n == s@.len(),
            forall|j: int| 0 <= j < i ==> s@[j] != '=',
        decreases n - i,
    {
        if s.get_char(i) == '=' {
            proof {
                lemma_eq_index_at(s@, i as int);
            }
            return Some(i);
        }
        i += 1;
    }
    proof {
        lemma_eq_index_none(s@);
    }
    None
}

/// The characters of `s` after index `i`, as an owned string.
pub fn tail_after(s: &str, i: usize) -> (r: String)
    requires
        i < s@.len(),
    ensures
        r@ == s@.subrange(i as int + 1, s@.len() as int),
{
    let n = s.unicode_len();
    s.substring_char(i + 1, n).to_owned()
}

} // verus!
