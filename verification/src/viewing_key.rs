//! The viewing-key subsystem: opaque per-account secrets that gate read
//! access to balances and transfer history. Verification deliberately runs
//! in a timing-uniform way: when no key is stored, the candidate is compared
//! against a fixed dummy value of the same shape instead of short-circuiting,
//! and absence of a key never authenticates.

use vstd::prelude::*;
use crate::bytes::ct_bytes_eq;
use crate::store::{find, Store};

verus! {

/// Surface-format envelope for externally supplied keys: non-empty, at most
/// this many bytes.
pub const VIEWING_KEY_MAX_LEN: usize = 64;

/// Length of the fixed dummy value compared against when no key is stored.
pub const DUMMY_KEY_LEN: usize = 24;

/// An externally supplied key is accepted when it is non-empty and within
/// the length envelope.
pub open spec fn spec_valid_key(k: Seq<u8>) -> bool {
    1 <= k.len() <= VIEWING_KEY_MAX_LEN
}

pub fn is_valid_key(key: &Vec<u8>) -> (r: bool)
    ensures
        r == spec_valid_key(key@),
{
    1 <= key.len() && key.len() <= VIEWING_KEY_MAX_LEN
}

/// The fixed domain-separation label mixed into every derived key.
pub open spec fn key_label() -> Seq<u8> {
    seq![118u8, 107u8, 101u8, 121u8]
}

/// A created key is derived deterministically from the host-provided
/// request context and the caller's entropy, under a fixed label.
pub open spec fn spec_derived_key(context: Seq<u8>, entropy: Seq<u8>) -> Seq<u8> {
    key_label() + context + entropy
}

pub fn derive_key(context: &Vec<u8>, entropy: &Vec<u8>) -> (r: Vec<u8>)
    requires
        context@.len() + entropy@.len() + 4 <= usize::MAX,
    ensures
        r@ == spec_derived_key(context@, entropy@),
{
    let mut r: Vec<u8> = Vec::new();
    r.push(118);
    r.push(107);
    r.push(101);
    r.push(121);
    proof {
        assert(r@ =~= key_label());
    }
    let mut i: usize = 0;
    let n = context.len();
    while i < n
        invariant
            n == context@.len(),
            i <= n,
            r@ =~= key_label() + context@.subrange(0, i as int),
        decreases n - i,
    {
        r.push(context[i]);
        proof {
            assert(r@ =~= key_label() + context@.subrange(0, i + 1));
        }
        i += 1;
    }
    proof {
        assert(context@.subrange(0, n as int) =~= context@);
    }
    let mut j: usize = 0;
    let m = entropy.len();
    while j < m
        invariant
            m == entropy@.len(),
            j <= m,
            r@ =~= (key_label() + context@) + entropy@.subrange(0, j as int),
        decreases m - j,
    {
        r.push(entropy[j]);
        proof {
            assert(r@ =~= (key_label() + context@) + entropy@.subrange(0, j + 1));
        }
        j += 1;
    }
    proof {
        assert(entropy@.subrange(0, m as int) =~= entropy@);
        assert((key_label() + context@) + entropy@ =~= spec_derived_key(context@, entropy@));
    }
    r
}

/// Whether the candidate authenticates for the account: true exactly when a
/// key is stored for the account and the candidate equals it.
pub open spec fn key_matches(store: Store<Vec<u8>>, a: Seq<u8>, candidate: Seq<u8>) -> bool {
    match find(store.entries@, a) {
        Some(k) => k@ == candidate,
        None => false,
    }
}

/// The fixed dummy material compared against when no key is stored.
pub fn dummy_key() -> (r: Vec<u8>)
    ensures
        r@.len() == DUMMY_KEY_LEN,
        forall|j: int| 0 <= j < r@.len() ==> r@[j] == 0u8,
{
    let mut r: Vec<u8> = Vec::new();
    let mut i: usize = 0;
    while i < DUMMY_KEY_LEN
        invariant
            i <= DUMMY_KEY_LEN,
            r@.len() == i,
            forall|j: int| 0 <= j < i ==> r@[j] == 0u8,
        decreases DUMMY_KEY_LEN - i,
    {
        r.push(0);
        i += 1;
    }
    r
}

/// Checks a candidate against the account's stored key. The comparison runs
/// whether or not a key is stored — against the dummy value when none is —
/// and its accumulator examines every byte, so "no key" and "wrong key" are
/// not distinguishable by an early exit; the two cases also return the same
/// value, `false`.
pub fn check_viewing_key(store: &Store<Vec<u8>>, account: &Vec<u8>, candidate: &Vec<u8>) -> (r:
    bool)
    ensures
        r == key_matches(*store, account@, candidate@),
{
    let dummy = dummy_key();
    let stored = store.get(account);
    let present = stored.is_some();
    let material = match stored {
        Some(k) => k,
        None => &dummy,
    };
    let eq = ct_bytes_eq(candidate, material);
    eq && present
}

/// Authentication treats "no key stored" and "a key is stored but the
/// candidate differs" identically: both verify to the same value, `false`.
pub proof fn lemma_verify_uniform(
    s1: Store<Vec<u8>>,
    s2: Store<Vec<u8>>,
    a1: Seq<u8>,
    a2: Seq<u8>,
    c: Seq<u8>,
)
    requires
        find(s1.entries@, a1) is None,
        match find(s2.entries@, a2) {
            Some(k) => k@ != c,
            None => false,
        },
    ensures
        key_matches(s1, a1, c) == key_matches(s2, a2, c),
        !key_matches(s1, a1, c),
{
}

} // verus!
