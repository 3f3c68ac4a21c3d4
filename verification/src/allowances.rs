//! The allowance store: spending ceilings keyed by an (owner, spender) pair
//! of account identifiers. A missing entry reads as zero.

use vstd::prelude::*;
use crate::bytes::bytes_eq;

verus! {

pub struct AllowanceEntry {
    pub owner: Vec<u8>,
    pub spender: Vec<u8>,
    pub amount: u128,
}

/// The amount stored under the (owner, spender) pair, or `None` when no
/// entry has that pair.
pub open spec fn find_allowance(s: Seq<AllowanceEntry>, o: Seq<u8>, p: Seq<u8>) -> Option<u128>
    decreases s.len(),
{
    if s.len() == 0 {
        None
    } else if s[0].owner@ == o && s[0].spender@ == p {
        Some(s[0].amount)
    } else {
        find_allowance(s.drop_first(), o, p)
    }
}

pub open spec fn pairs_unique(s: Seq<AllowanceEntry>) -> bool {
    forall|i: int, j: int|
        0 <= i < j < s.len() ==> !(s[i].owner@ == s[j].owner@ && s[i].spender@ == s[j].spender@)
}

pub proof fn lemma_allowance_skip(s: Seq<AllowanceEntry>, o: Seq<u8>, p: Seq<u8>, i: int)
    requires
        0 <= i <= s.len(),
        forall|j: int| 0 <= j < i ==> !(s[j].owner@ == o && s[j].spender@ == p),
    ensures
        find_allowance(s, o, p) == find_allowance(s.skip(i), o, p),
    decreases i,
{
    if i > 0 {
        assert(s.skip(1) =~= s.drop_first());
        lemma_allowance_skip(s.drop_first(), o, p, i - 1);
        assert(s.drop_first().skip(i - 1) =~= s.skip(i));
    } else {
        assert(s.skip(0) =~= s);
    }
}

pub proof fn lemma_allowance_update(s: Seq<AllowanceEntry>, i: int, e: AllowanceEntry)
    requires
        pairs_unique(s),
        0 <= i < s.len(),
        e.owner@ == s[i].owner@,
        e.spender@ == s[i].spender@,
    ensures
        pairs_unique(s.update(i, e)),
        forall|o: Seq<u8>, p: Seq<u8>|
            find_allowance(s.update(i, e), o, p) == (if o == e.owner@ && p == e.spender@ {
                Some(e.amount)
            } else {
                find_allowance(s, o, p)
            }),
    decreases i,
{
    assert(forall|j: int|
        0 <= j < s.len() ==> s.update(i, e)[j].owner@ == s[j].owner@ && s.update(i, e)[j].spender@
            == s[j].spender@);
    if i == 0 {
        assert(s.update(0, e).drop_first() =~= s.drop_first());
    } else {
        assert(pairs_unique(s.drop_first()));
        lemma_allowance_update(s.drop_first(), i - 1, e);
        assert(s.update(i, e).drop_first() =~= s.drop_first().update(i - 1, e));
        assert forall|o: Seq<u8>, p: Seq<u8>|
            find_allowance(s.update(i, e), o, p) == (if o == e.owner@ && p == e.spender@ {
                Some(e.amount)
            } else {
                find_allowance(s, o, p)
            }) by {
            if !(o == s[0].owner@ && p == s[0].spender@) {
                assert(find_allowance(s.update(i, e), o, p) == find_allowance(
                    s.drop_first().update(i - 1, e),
                    o,
                    p,
                ));
                assert(find_allowance(s, o, p) == find_allowance(s.drop_first(), o, p));
            }
        }
    }
}

pub proof fn lemma_allowance_push(s: Seq<AllowanceEntry>, e: AllowanceEntry)
    requires
        pairs_unique(s),
        forall|j: int| 0 <= j < s.len() ==> !(s[j].owner@ == e.owner@ && s[j].spender@ == e.spender@),
    ensures
        pairs_unique(s.push(e)),
        forall|o: Seq<u8>, p: Seq<u8>|
            find_allowance(s.push(e), o, p) == (if o == e.owner@ && p == e.spender@ {
                Some(e.amount)
            } else {
                find_allowance(s, o, p)
            }),
    decreases s.len(),
{
    assert(forall|j: int|
        0 <= j < s.len() ==> s.push(e)[j].owner@ == s[j].owner@ && s.push(e)[j].spender@
            == s[j].spender@);
    if s.len() == 0 {
        assert forall|o: Seq<u8>, p: Seq<u8>|
            find_allowance(s.push(e), o, p) == (if o == e.owner@ && p == e.spender@ {
                Some(e.amount)
            } else {
                find_allowance(s, o, p)
            }) by {
            assert(s.push(e)[0] == e);
            if !(o == e.owner@ && p == e.spender@) {
                assert(s.push(e).drop_first() =~= s);
            }
        }
    } else {
        assert(pairs_unique(s.drop_first()));
        lemma_allowance_push(s.drop_first(), e);
        assert(s.push(e).drop_first() =~= s.drop_first().push(e));
        assert forall|o: Seq<u8>, p: Seq<u8>|
            find_allowance(s.push(e), o, p) == (if o == e.owner@ && p == e.spender@ {
                Some(e.amount)
            } else {
                find_allowance(s, o, p)
            }) by {
            assert(s.push(e)[0] == s[0]);
            if !(o == s[0].owner@ && p == s[0].spender@) {
                assert(find_allowance(s.push(e), o, p) == find_allowance(
                    s.drop_first().push(e),
                    o,
                    p,
                ));
                assert(find_allowance(s, o, p) == find_allowance(s.drop_first(), o, p));
            }
        }
    }
}

pub struct Allowances {
    pub entries: Vec<AllowanceEntry>,
}

/// The spending ceiling `owner` has granted `spender`: the stored amount, or
/// zero when none was ever set.
pub open spec fn allowance_in(a: Allowances, o: Seq<u8>, p: Seq<u8>) -> u128 {
    match find_allowance(a.entries@, o, p) {
        Some(v) => v,
        None => 0,
    }
}

impl Allowances {
    pub open spec fn wf(self) -> bool {
        pairs_unique(self.entries@)
    }

    pub fn new() -> (r: Allowances)
        ensures
            r.wf(),
            forall|o: Seq<u8>, p: Seq<u8>| allowance_in(r, o, p) == 0,
    {
        Allowances { entries: Vec::new() }
    }

    /// Reads the allowance for the (owner, spender) pair, defaulting to zero.
    pub fn read_allowance(&self, owner: &Vec<u8>, spender: &Vec<u8>) -> (r: u128)
        ensures
            r == allowance_in(*self, owner@, spender@),
    {
        let n = self.entries.len();
        let mut i: usize = 0;
        while i < n
            invariant
                n == self.entries@.len(),
                i <= n,
                forall|j: int|
                    0 <= j < i ==> !(self.entries@[j].owner@ == owner@ && self.entries@[j].spender@
                        == spender@),
            decreases n - i,
        {
            if bytes_eq(&self.entries[i].owner, owner) && bytes_eq(&self.entries[i].spender, spender) {
                proof {
                    lemma_allowance_skip(self.entries@, owner@, spender@, i as int);
                    assert(self.entries@.skip(i as int)[0] == self.entries@[i as int]);
                }
                return self.entries[i].amount;
            }
            i += 1;
        }
        proof {
            lemma_allowance_skip(self.entries@, owner@, spender@, n as int);
        }
        0
    }

    /// Writes the allowance for the (owner, spender) pair: an absolute
    /// replacement of any previous ceiling.
    pub fn write_allowance(&mut self, owner: &Vec<u8>, spender: &Vec<u8>, amount: u128)
        requires
            old(self).wf(),
        ensures
            final(self).wf(),
            forall|o: Seq<u8>, p: Seq<u8>|
                allowance_in(*final(self), o, p) == (if o == owner@ && p == spender@ {
                    amount
                } else {
                    allowance_in(*old(self), o, p)
                }),
    {
        let ghost s0 = self.entries@;
        let n = self.entries.len();
        let mut i: usize = 0;
        while i < n
            invariant
                n == self.entries@.len(),
                i <= n,
                self.entries@ == s0,
                s0 == old(self).entries@,
                pairs_unique(s0),
                forall|j: int|
                    0 <= j < i ==> !(s0[j].owner@ == owner@ && s0[j].spender@ == spender@),
            decreases n - i,
        {
            if bytes_eq(&self.entries[i].owner, owner) && bytes_eq(&self.entries[i].spender, spender) {
                let e = AllowanceEntry {
                    owner: crate::bytes::copy_bytes(owner),
                    spender: crate::bytes::copy_bytes(spender),
                    amount,
                };
                self.entries.set(i, e);
                proof {
                    lemma_allowance_update(s0, i as int, self.entries@[i as int]);
                }
                return;
            }
            i += 1;
        }
        self.entries.push(
            AllowanceEntry {
                owner: crate::bytes::copy_bytes(owner),
                spender: crate::bytes::copy_bytes(spender),
                amount,
            },
        );
        proof {
            lemma_allowance_push(s0, self.entries@.last());
            assert(self.entries@ =~= s0.push(self.entries@.last()));
        }
    }
}

} // verus!
