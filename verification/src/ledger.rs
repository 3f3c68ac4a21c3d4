//! The balance ledger: a keyed store from account identifiers to unsigned
//! amounts, together with the summation machinery that backs the
//! conservation invariant (the sum of all balances equals the total supply).

use vstd::prelude::*;
use crate::store::{find, keys_unique, Entry, Store};

verus! {

/// The sum of all stored amounts.
pub open spec fn sum_of(s: Seq<Entry<u128>>) -> int
    decreases s.len(),
{
    if s.len() == 0 {
        0
    } else {
        s[0].val + sum_of(s.drop_first())
    }
}

pub proof fn lemma_sum_nonneg(s: Seq<Entry<u128>>)
    ensures
        0 <= sum_of(s),
    decreases s.len(),
{
    if s.len() > 0 {
        lemma_sum_nonneg(s.drop_first());
    }
}

/// Replacing the entry at index `i` changes the sum by the difference of the
/// amounts.
pub proof fn lemma_sum_update(s: Seq<Entry<u128>>, i: int, e: Entry<u128>)
    requires
        0 <= i < s.len(),
    ensures
        sum_of(s.update(i, e)) == sum_of(s) - s[i].val + e.val,
    decreases i,
{
    if i == 0 {
        assert(s.update(0, e).drop_first() =~= s.drop_first());
    } else {
        assert(s.update(i, e).drop_first() =~= s.drop_first().update(i - 1, e));
        lemma_sum_update(s.drop_first(), i - 1, e);
    }
}

/// Appending an entry adds its amount to the sum.
pub proof fn lemma_sum_push(s: Seq<Entry<u128>>, e: Entry<u128>)
    ensures
        sum_of(s.push(e)) == sum_of(s) + e.val,
    decreases s.len(),
{
    if s.len() == 0 {
        assert(s.push(e)[0] == e);
        assert(s.push(e).drop_first() =~= Seq::<Entry<u128>>::empty());
        assert(sum_of(s.push(e).drop_first()) == 0);
        assert(sum_of(s.push(e)) == e.val + 0);
    } else {
        assert(s.push(e)[0] == s[0]);
        assert(s.push(e).drop_first() =~= s.drop_first().push(e));
        lemma_sum_push(s.drop_first(), e);
        assert(sum_of(s.push(e)) == s[0].val + sum_of(s.drop_first().push(e)));
    }
}

/// No single stored amount exceeds the sum of all of them.
pub proof fn lemma_find_le_sum(s: Seq<Entry<u128>>, k: Seq<u8>)
    ensures
        match find(s, k) {
            Some(v) => v <= sum_of(s),
            None => true,
        },
    decreases s.len(),
{
    if s.len() > 0 {
        lemma_sum_nonneg(s.drop_first());
        lemma_find_le_sum(s.drop_first(), k);
    }
}

/// The balance of an account: the stored amount, or zero when the account
/// has no entry.
pub open spec fn balance_in(s: Store<u128>, a: Seq<u8>) -> u128 {
    match find(s.entries@, a) {
        Some(v) => v,
        None => 0,
    }
}

/// Reads an account's balance, defaulting to zero for an absent entry.
pub fn get_balance(store: &Store<u128>, account: &Vec<u8>) -> (r: u128)
    ensures
        r == balance_in(*store, account@),
{
    match store.get(account) {
        Some(v) => *v,
        None => 0,
    }
}

/// Writes an account's balance (an absolute replacement, not a delta). The
/// contract tracks the effect on the sum of all balances, so the caller can
/// maintain conservation against the total supply.
pub fn set_balance(store: &mut Store<u128>, account: &Vec<u8>, amount: u128)
    requires
        old(store).wf(),
    ensures
        final(store).wf(),
        forall|b: Seq<u8>|
            balance_in(*final(store), b) == (if b == account@ {
                amount
            } else {
                balance_in(*old(store), b)
            }),
        sum_of(final(store).entries@) == sum_of(old(store).entries@) - balance_in(
            *old(store),
            account@,
        ) + amount,
{
    let ghost s0 = store.entries@;
    store.set(account, amount);
    proof {
        match find(s0, account@) {
            Some(_) => {
                let i = choose|i: int|
                    0 <= i < s0.len() && s0[i].key@ == account@ && store.entries@ == s0.update(
                        i,
                        store.entries@[i],
                    ) && store.entries@[i].key@ == account@ && store.entries@[i].val == amount;
                lemma_sum_update(s0, i, store.entries@[i]);
                lemma_find_at_index(s0, account@, i);
            },
            None => {
                lemma_sum_push(s0, store.entries@.last());
            },
        }
        assert forall|b: Seq<u8>|
            balance_in(*store, b) == (if b == account@ {
                amount
            } else {
                balance_in(*old(store), b)
            }) by {
            assert(store.spec_find(b) == (if b == account@ {
                Some(amount)
            } else {
                old(store).spec_find(b)
            }));
        }
    }
}

/// With unique keys, the entry found for `k` is exactly the entry sitting at
/// any index whose key is `k`.
pub proof fn lemma_find_at_index(s: Seq<Entry<u128>>, k: Seq<u8>, i: int)
    requires
        keys_unique(s),
        0 <= i < s.len(),
        s[i].key@ == k,
    ensures
        find(s, k) == Some(s[i].val),
    decreases i,
{
    if i == 0 {
    } else {
        assert(s[0].key@ != k);
        lemma_find_at_index(s.drop_first(), k, i - 1);
    }
}

} // verus!
