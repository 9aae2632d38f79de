//! Byte-string helpers.
//!
//! Credential ids, public keys, account addresses and token identifiers
//! are opaque byte strings.  The engine only ever copies them, compares
//! them for equality, and searches them for a marker.

use vstd::prelude::*;

verus! {

/// The needle `n` occurs in the haystack `h` starting at offset `i`.
pub open spec fn match_at(h: Seq<u8>, n: Seq<u8>, i: int) -> bool {
    &&& 0 <= i
    &&& i + n.len() <= h.len()
    &&& forall|j: int| 0 <= j < n.len() ==> h[i + j] == n[j]
}

/// The needle `n` occurs somewhere in the haystack `h`.
pub open spec fn contains_bytes(h: Seq<u8>, n: Seq<u8>) -> bool {
    exists|i: int| match_at(h, n, i)
}

/// Byte-for-byte equality of two byte strings.
pub fn bytes_eq(a: &Vec<u8>, b: &Vec<u8>) -> (r: bool)
    ensures
        r == (a@ == b@),
{
    if a.len() != b.len() {
        return false;
    }
    let mut i: usize = 0;
    while i < a.len()
        invariant
            a@.len() == b@.len(),
            i <= a.len(),
            forall|k: int| 0 <= k < i ==> a@[k] == b@[k],
        decreases a.len() - i,
    {
        if a[i] != b[i] {
            return false;
        }
        i += 1;
    }
    proof {
        assert(a@ =~= b@);
    }
    true
}

/// A fresh copy of a byte string.
pub fn clone_bytes(v: &Vec<u8>) -> (r: Vec<u8>)
    ensures
        r@ == v@,
{
    let mut r: Vec<u8> = Vec::new();
    let mut i: usize = 0;
    while i < v.len()
        invariant
            i <= v.len(),
            r@ == v@.subrange(0, i as int),
        decreases v.len() - i,
    {
        r.push(v[i]);
        proof {
            assert(r@ =~= v@.subrange(0, i as int + 1));
        }
        i += 1;
    }
    proof {
        assert(r@ =~= v@);
    }
    r
}

/// Whether `n` occurs in `h` starting exactly at offset `i`.
fn check_match_at(h: &Vec<u8>, n: &Vec<u8>, i: usize) -> (r: bool)
    requires
        i + n@.len() <= h@.len(),
    ensures
        r == match_at(h@, n@, i as int),
{
    let n_len = n.len();
    let h_len = h.len();
    let mut j: usize = 0;
    while j < n_len
        invariant
            j <= n_len,
            n_len == n@.len(),
            h_len == h@.len(),
            i + n_len <= h_len,
            forall|l: int| 0 <= l < j ==> h@[i + l] == n@[l],
        decreases n_len - j,
    {
        if h[i + j] != n[j] {
            return false;
        }
        j += 1;
    }
    true
}

/// Substring search: whether the needle `n` occurs anywhere in `h`.
pub fn contains_subslice(h: &Vec<u8>, n: &Vec<u8>) -> (r: bool)
    ensures
        r == contains_bytes(h@, n@),
{
    if n.len() > h.len() {
        proof {
            assert(forall|i: int| !match_at(h@, n@, i));
        }
        return false;
    }
    if n.len() == 0 {
        proof {
            assert(match_at(h@, n@, 0));
        }
        return true;
    }
    let h_len = h.len();
    let end = h.len() - n.len();
    let mut i: usize = 0;
    while i <= end
        invariant
            1 <= n@.len() <= h@.len(),
            h_len == h@.len(),
            end == h@.len() - n@.len(),
            i <= end + 1,
            forall|k: int| 0 <= k < i ==> !match_at(h@, n@, k),
        decreases end + 1 - i,
    {
        if check_match_at(h, n, i) {
            proof {
                assert(contains_bytes(h@, n@));
            }
            return true;
        }
        i += 1;
    }
    proof {
        assert(forall|k: int| !match_at(h@, n@, k));
    }
    false
}

} // verus!
