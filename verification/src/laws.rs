//! Ledger-wide properties stated and proved once, over the contracts of the
//! operations in `token`.

use vstd::prelude::*;
use crate::ledger::sum_of;
use crate::msg::Error;
use crate::token::{transfer_from_outcome, transfer_outcome, Token};

verus! {

/// One step of the supply-preserving operation set: a direct transfer or
/// send, an allowance-gated transfer — each with any outcome, success or
/// failure — or any operation that does not touch the balance store at all
/// (an approval, a key operation, a registration, a read). Deposit,
/// withdraw and burn are deliberately not steps of this set: they are the
/// operations allowed to change the supply.
pub open spec fn is_transfer_step(a: Token, b: Token) -> bool {
    ||| exists|from: Seq<u8>, to: Seq<u8>, amount: u128, r: Result<(), Error>|
        transfer_outcome(a, b, from, to, amount, r)
    ||| exists|
        owner: Seq<u8>,
        spender: Seq<u8>,
        recipient: Seq<u8>,
        amount: u128,
        r: Result<(), Error>,
    | transfer_from_outcome(a, b, owner, spender, recipient, amount, r)
    ||| (b.balances == a.balances && b.total_supply == a.total_supply)
}

/// Conservation, one step: a transfer-family operation — whether it
/// succeeds or fails — never changes the total supply, and so never changes
/// the sum of all balances.
pub proof fn lemma_transfer_conserves(a: Token, b: Token)
    requires
        a.wf(),
        b.wf(),
        is_transfer_step(a, b),
    ensures
        b.total_supply == a.total_supply,
        sum_of(b.balances.entries@) == sum_of(a.balances.entries@),
{
}

/// Conservation, any run: across every sequence of states chained by
/// transfer-family operations, the sum of all balances is invariant.
pub proof fn lemma_conservation_chain(s: Seq<Token>)
    requires
        s.len() > 0,
        forall|i: int| 0 <= i < s.len() ==> s[i].wf(),
        forall|i: int| 0 <= i < s.len() - 1 ==> is_transfer_step(#[trigger] s[i], s[i + 1]),
    ensures
        s.last().total_supply == s[0].total_supply,
        sum_of(s.last().balances.entries@) == sum_of(s[0].balances.entries@),
    decreases s.len(),
{
    if s.len() > 1 {
        let t = s.drop_last();
        assert(forall|i: int| 0 <= i < t.len() ==> t[i] == s[i]);
        lemma_conservation_chain(t);
        lemma_transfer_conserves(s[s.len() - 2], s[s.len() - 1]);
    }
}

/// Non-negativity: balances and allowances are unsigned by construction,
/// so no account and no (owner, spender) pair can ever be negative.
pub proof fn lemma_non_negative(t: Token)
    ensures
        forall|a: Seq<u8>| t.balance_of(a) >= 0,
        forall|o: Seq<u8>, p: Seq<u8>| t.allowance_of(o, p) >= 0,
{
}

/// Atomicity: a transfer that fails — on funds or on overflow — leaves the
/// whole state, in particular both parties' balances, exactly as it was.
pub proof fn lemma_failed_transfer_atomic(
    a: Token,
    b: Token,
    from: Seq<u8>,
    to: Seq<u8>,
    amount: u128,
    e: Error,
)
    requires
        transfer_outcome(a, b, from, to, amount, Err(e)),
    ensures
        b == a,
        b.balance_of(from) == a.balance_of(from),
        b.balance_of(to) == a.balance_of(to),
{
}

/// Allowance monotonicity under spend: a successful allowance-gated
/// transfer of `k` lowers the allowance by exactly `k`, and can never drive
/// it negative.
pub proof fn lemma_allowance_spend(
    a: Token,
    b: Token,
    owner: Seq<u8>,
    spender: Seq<u8>,
    recipient: Seq<u8>,
    amount: u128,
)
    requires
        transfer_from_outcome(a, b, owner, spender, recipient, amount, Ok(())),
    ensures
        b.allowance_of(owner, spender) == a.allowance_of(owner, spender) - amount,
        b.allowance_of(owner, spender) >= 0,
        a.allowance_of(owner, spender) >= amount,
{
}

} // verus!
