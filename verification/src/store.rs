//! An association list from opaque byte-identifier keys to values, with
//! unique keys. All the ledger's stores (balances, transfer logs, viewing
//! keys, receiver hooks) are instances of it.

use vstd::prelude::*;
use crate::bytes::{bytes_eq, copy_bytes};

verus! {

pub struct Entry<T> {
    pub key: Vec<u8>,
    pub val: T,
}

/// The value stored under key `k`, or `None` when no entry has that key.
pub open spec fn find<T>(s: Seq<Entry<T>>, k: Seq<u8>) -> Option<T>
    decreases s.len(),
{
    if s.len() == 0 {
        None
    } else if s[0].key@ == k {
        Some(s[0].val)
    } else {
        find(s.drop_first(), k)
    }
}

pub open spec fn keys_unique<T>(s: Seq<Entry<T>>) -> bool {
    forall|i: int, j: int| 0 <= i < j < s.len() ==> s[i].key@ != s[j].key@
}

/// Scanning past a prefix of entries whose keys all differ from `k` does not
/// change the result of the lookup.
pub proof fn lemma_find_skip<T>(s: Seq<Entry<T>>, k: Seq<u8>, i: int)
    requires
        0 <= i <= s.len(),
        forall|j: int| 0 <= j < i ==> s[j].key@ != k,
    ensures
        find(s, k) == find(s.skip(i), k),
    decreases i,
{
    if i > 0 {
        assert(s.skip(1) =~= s.drop_first());
        lemma_find_skip(s.drop_first(), k, i - 1);
        assert(s.drop_first().skip(i - 1) =~= s.skip(i));
    } else {
        assert(s.skip(0) =~= s);
    }
}

/// A lookup that finds nothing means no entry has that key, and conversely.
pub proof fn lemma_find_none<T>(s: Seq<Entry<T>>, k: Seq<u8>)
    ensures
        (find(s, k) is None) <==> (forall|j: int| 0 <= j < s.len() ==> s[j].key@ != k),
    decreases s.len(),
{
    if s.len() > 0 {
        lemma_find_none(s.drop_first(), k);
        assert(forall|j: int| 0 <= j < s.drop_first().len() ==> s.drop_first()[j] == s[j + 1]);
        if s[0].key@ == k {
            assert(find(s, k) == Some(s[0].val));
        } else {
            assert(find(s, k) == find(s.drop_first(), k));
            if find(s, k) is None {
                assert forall|j: int| 0 <= j < s.len() implies s[j].key@ != k by {
                    if j > 0 {
                        assert(s.drop_first()[j - 1] == s[j]);
                    }
                }
            } else {
                let jj = choose|j: int|
                    0 <= j < s.drop_first().len() && s.drop_first()[j].key@ == k;
                assert(s[jj + 1].key@ == k);
            }
        }
    }
}

/// Replacing the entry at index `i` by one with the same key updates the
/// lookup at that key and leaves every other key's lookup unchanged.
pub proof fn lemma_find_update<T>(s: Seq<Entry<T>>, i: int, e: Entry<T>)
    requires
        keys_unique(s),
        0 <= i < s.len(),
        e.key@ == s[i].key@,
    ensures
        keys_unique(s.update(i, e)),
        forall|b: Seq<u8>|
            find(s.update(i, e), b) == (if b == e.key@ {
                Some(e.val)
            } else {
                find(s, b)
            }),
    decreases i,
{
    assert(forall|j: int| 0 <= j < s.len() ==> s.update(i, e)[j].key@ == s[j].key@);
    if i == 0 {
        assert(s.update(0, e).drop_first() =~= s.drop_first());
        assert forall|b: Seq<u8>| find(s.update(0, e), b) == (if b == e.key@ {
            Some(e.val)
        } else {
            find(s, b)
        }) by {
            if b != e.key@ {
                assert(find(s.update(0, e), b) == find(s.drop_first(), b));
                assert(find(s, b) == find(s.drop_first(), b));
            }
        }
    } else {
        assert(keys_unique(s.drop_first()));
        lemma_find_update(s.drop_first(), i - 1, e);
        assert(s.update(i, e).drop_first() =~= s.drop_first().update(i - 1, e));
        assert forall|b: Seq<u8>| find(s.update(i, e), b) == (if b == e.key@ {
            Some(e.val)
        } else {
            find(s, b)
        }) by {
            if b == s[0].key@ {
                assert(b != e.key@);
            } else {
                assert(find(s.update(i, e), b) == find(s.drop_first().update(i - 1, e), b));
                assert(find(s, b) == find(s.drop_first(), b));
            }
        }
    }
}

/// Appending an entry under a fresh key adds exactly that lookup and leaves
/// every other key's lookup unchanged.
pub proof fn lemma_find_push<T>(s: Seq<Entry<T>>, e: Entry<T>)
    requires
        keys_unique(s),
        find(s, e.key@) is None,
    ensures
        keys_unique(s.push(e)),
        forall|b: Seq<u8>|
            find(s.push(e), b) == (if b == e.key@ {
                Some(e.val)
            } else {
                find(s, b)
            }),
    decreases s.len(),
{
    lemma_find_none(s, e.key@);
    assert(forall|j: int| 0 <= j < s.len() ==> s.push(e)[j].key@ == s[j].key@);
    if s.len() == 0 {
        assert forall|b: Seq<u8>| find(s.push(e), b) == (if b == e.key@ {
            Some(e.val)
        } else {
            find(s, b)
        }) by {
            if b != e.key@ {
                assert(s.push(e).drop_first() =~= s);
            }
        }
    } else {
        assert(keys_unique(s.drop_first()));
        lemma_find_none(s.drop_first(), e.key@);
        lemma_find_push(s.drop_first(), e);
        assert(s.push(e).drop_first() =~= s.drop_first().push(e));
        assert forall|b: Seq<u8>| find(s.push(e), b) == (if b == e.key@ {
            Some(e.val)
        } else {
            find(s, b)
        }) by {
            if b != s[0].key@ {
                assert(find(s.push(e), b) == find(s.drop_first().push(e), b));
                assert(find(s, b) == find(s.drop_first(), b));
            }
        }
    }
}

pub struct Store<T> {
    pub entries: Vec<Entry<T>>,
}

impl<T> Store<T> {
    pub open spec fn wf(self) -> bool {
        keys_unique(self.entries@)
    }

    pub open spec fn spec_find(self, k: Seq<u8>) -> Option<T> {
        find(self.entries@, k)
    }

    pub fn new() -> (r: Store<T>)
        ensures
            r.wf(),
            r.entries@ == Seq::<Entry<T>>::empty(),
            forall|b: Seq<u8>| r.spec_find(b) is None,
    {
        let r = Store { entries: Vec::new() };
        proof {
            assert forall|b: Seq<u8>| r.spec_find(b) is None by {
                lemma_find_none(r.entries@, b);
            }
        }
        r
    }

    /// A reference to the value stored under `k`, if any.
    pub fn get(&self, k: &Vec<u8>) -> (r: Option<&T>)
        ensures
            match r {
                Some(v) => self.spec_find(k@) == Some(*v),
                None => self.spec_find(k@) is None,
            },
    {
        let n = self.entries.len();
        let mut i: usize = 0;
        while i < n
            invariant
                n == self.entries@.len(),
                i <= n,
                forall|j: int| 0 <= j < i ==> self.entries@[j].key@ != k@,
            decreases n - i,
        {
            if bytes_eq(&self.entries[i].key, k) {
                proof {
                    lemma_find_skip(self.entries@, k@, i as int);
                    assert(self.entries@.skip(i as int)[0] == self.entries@[i as int]);
                }
                return Some(&self.entries[i].val);
            }
            i += 1;
        }
        proof {
            lemma_find_skip(self.entries@, k@, n as int);
        }
        None
    }

    /// Stores `v` under `k`, replacing any previous value. Besides the new
    /// lookup table, the contract exposes whether the write was an in-place
    /// replacement or an append, so callers can track aggregate quantities
    /// such as the balance total.
    pub fn set(&mut self, k: &Vec<u8>, v: T)
        requires
            old(self).wf(),
        ensures
            final(self).wf(),
            forall|b: Seq<u8>|
                final(self).spec_find(b) == (if b == k@ {
                    Some(v)
                } else {
                    old(self).spec_find(b)
                }),
            match old(self).spec_find(k@) {
                Some(_) => exists|i: int|
                    0 <= i < old(self).entries@.len() && old(self).entries@[i].key@ == k@
                        && final(self).entries@ == old(self).entries@.update(
                        i,
                        final(self).entries@[i],
                    ) && final(self).entries@[i].key@ == k@ && final(self).entries@[i].val == v,
                None => final(self).entries@ == old(self).entries@.push(
                    final(self).entries@.last(),
                ) && final(self).entries@.last().key@ == k@ && final(self).entries@.last().val
                    == v,
            },
    {
        let ghost s0 = self.entries@;
        let n = self.entries.len();
        let mut i: usize = 0;
        while i < n
            invariant
                n == self.entries@.len(),
                i <= n,
                self.entries@ == s0,
                s0 == old(self).entries@,
                keys_unique(s0),
                forall|j: int| 0 <= j < i ==> s0[j].key@ != k@,
            decreases n - i,
        {
            if bytes_eq(&self.entries[i].key, k) {
                proof {
                    lemma_find_skip(s0, k@, i as int);
                    assert(s0.skip(i as int)[0] == s0[i as int]);
                    assert(find(s0, k@) == Some(s0[i as int].val));
                }
                let e = Entry { key: copy_bytes(k), val: v };
                self.entries.set(i, e);
                proof {
                    lemma_find_update(s0, i as int, self.entries@[i as int]);
                    assert((i as int) < s0.len() && s0[i as int].key@ == k@ && self.entries@
                        == s0.update(i as int, self.entries@[i as int])
                        && self.entries@[i as int].key@ == k@ && self.entries@[i as int].val == v);
                }
                return;
            }
            i += 1;
        }
        proof {
            lemma_find_skip(s0, k@, n as int);
        }
        self.entries.push(Entry { key: copy_bytes(k), val: v });
        proof {
            lemma_find_push(s0, self.entries@.last());
        }
    }
}

} // verus!
