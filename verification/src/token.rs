//! The token core: constants, the ledger state, and every operation of the
//! request set, each with a contract that pins down the successful result,
//! each failure, and the inputs on which each occurs.

use vstd::prelude::*;
use vstd::utf8::encode_utf8;
use crate::allowances::{allowance_in, Allowances};
use crate::bytes::{bytes_eq, copy_bytes};
use crate::ledger::{balance_in, get_balance, lemma_find_le_sum, set_balance, sum_of};
use crate::display::{spec_display_token, to_display_token, DECIMAL_FRACTIONAL};
use crate::msg::{
    Coin, Effect, Error, InitialBalance, QueryAnswer, QueryRequest, Request, Response,
    ResponseStatus,
};
use crate::store::{find, Store};
use crate::transfers::{
    append_record, log_in, page_of, read_transfers, views_of, RecordView, TransferRecord,
};
use crate::viewing_key::{
    check_viewing_key, derive_key, is_valid_key, key_matches, spec_derived_key, spec_valid_key,
};
use crate::{is_valid_name, is_valid_symbol, spec_valid_name, spec_valid_symbol};

verus! {

/// The immutable token constants, set exactly once at initialization.
pub struct Constants {
    pub name: String,
    pub symbol: String,
    pub decimals: u8,
}

impl Constants {
    pub open spec fn wf(self) -> bool {
        &&& spec_valid_name(encode_utf8(self.name@))
        &&& spec_valid_symbol(encode_utf8(self.symbol@))
        &&& self.decimals <= 18
    }
}

/// The whole ledger state. Well-formedness carries the conservation
/// invariant: the sum of all balances equals the total supply.
pub struct Token {
    pub constants: Constants,
    pub total_supply: u128,
    pub balances: Store<u128>,
    pub allowances: Allowances,
    pub logs: Store<Vec<TransferRecord>>,
    pub viewing_keys: Store<Vec<u8>>,
    pub receiver_hooks: Store<String>,
}

impl Token {
    pub open spec fn wf(self) -> bool {
        &&& self.constants.wf()
        &&& self.balances.wf()
        &&& self.allowances.wf()
        &&& self.logs.wf()
        &&& self.viewing_keys.wf()
        &&& self.receiver_hooks.wf()
        &&& sum_of(self.balances.entries@) == self.total_supply as int
    }

    pub open spec fn balance_of(self, a: Seq<u8>) -> u128 {
        balance_in(self.balances, a)
    }

    pub open spec fn allowance_of(self, o: Seq<u8>, p: Seq<u8>) -> u128 {
        allowance_in(self.allowances, o, p)
    }

    pub open spec fn transfers_of(self, a: Seq<u8>) -> Seq<RecordView> {
        log_in(self.logs, a)
    }

    pub open spec fn key_of(self, a: Seq<u8>) -> Option<Seq<u8>> {
        match find(self.viewing_keys.entries@, a) {
            Some(k) => Some(k@),
            None => None,
        }
    }

    pub open spec fn hook_of(self, a: Seq<u8>) -> Option<Seq<char>> {
        match find(self.receiver_hooks.entries@, a) {
            Some(h) => Some(h@),
            None => None,
        }
    }
}

/// How a successful transfer moves the balances: `amount` leaves `from` and
/// arrives at `to`; a self-transfer leaves everything as it was; no other
/// account moves.
pub open spec fn moved_balances(
    pre: Token,
    post: Token,
    from: Seq<u8>,
    to: Seq<u8>,
    amount: u128,
) -> bool {
    if from == to {
        forall|b: Seq<u8>| post.balance_of(b) == pre.balance_of(b)
    } else {
        &&& post.balance_of(from) == pre.balance_of(from) - amount
        &&& post.balance_of(to) == pre.balance_of(to) + amount
        &&& forall|b: Seq<u8>| b != from && b != to ==> post.balance_of(b) == pre.balance_of(b)
    }
}

/// How a successful transfer extends the history: one record, visible in
/// both parties' logs (once, for a self-transfer); no other log changes.
pub open spec fn logs_appended(
    pre: Token,
    post: Token,
    from: Seq<u8>,
    to: Seq<u8>,
    amount: u128,
) -> bool {
    let rec = (RecordView { from, to, amount, symbol: pre.constants.symbol@ });
    &&& post.transfers_of(from) == pre.transfers_of(from).push(rec)
    &&& (from == to || post.transfers_of(to) == pre.transfers_of(to).push(rec))
    &&& forall|b: Seq<u8>| b != from && b != to ==> post.transfers_of(b) == pre.transfers_of(b)
}

/// The outcome of the balance-moving step alone (no history append).
/// Failures leave the state untouched, and each failure names its cause:
/// `InsufficientFunds` exactly when the sender's balance is short, and
/// `BalanceOverflow` exactly when the credit would exceed the amount
/// representation.
pub open spec fn perform_transfer_outcome(
    pre: Token,
    post: Token,
    from: Seq<u8>,
    to: Seq<u8>,
    amount: u128,
    r: Result<(), Error>,
) -> bool {
    match r {
        Ok(_) => {
            &&& pre.balance_of(from) >= amount
            &&& (from == to || pre.balance_of(to) + amount <= u128::MAX)
            &&& moved_balances(pre, post, from, to, amount)
            &&& post.total_supply == pre.total_supply
            &&& post.constants == pre.constants
            &&& post.allowances == pre.allowances
            &&& post.logs == pre.logs
            &&& post.viewing_keys == pre.viewing_keys
            &&& post.receiver_hooks == pre.receiver_hooks
        },
        Err(e) => {
            &&& post == pre
            &&& match e {
                Error::InsufficientFunds { balance, required } => {
                    &&& balance == pre.balance_of(from)
                    &&& required == amount
                    &&& balance < amount
                },
                Error::BalanceOverflow => {
                    &&& from != to
                    &&& pre.balance_of(from) >= amount
                    &&& pre.balance_of(to) + amount > u128::MAX
                },
                _ => false,
            }
        },
    }
}

/// The outcome of a whole transfer: the balance move plus the history
/// append.
pub open spec fn transfer_outcome(
    pre: Token,
    post: Token,
    from: Seq<u8>,
    to: Seq<u8>,
    amount: u128,
    r: Result<(), Error>,
) -> bool {
    match r {
        Ok(_) => {
            &&& pre.balance_of(from) >= amount
            &&& (from == to || pre.balance_of(to) + amount <= u128::MAX)
            &&& moved_balances(pre, post, from, to, amount)
            &&& logs_appended(pre, post, from, to, amount)
            &&& post.total_supply == pre.total_supply
            &&& post.constants == pre.constants
            &&& post.allowances == pre.allowances
            &&& post.viewing_keys == pre.viewing_keys
            &&& post.receiver_hooks == pre.receiver_hooks
        },
        Err(e) => perform_transfer_outcome(pre, post, from, to, amount, r),
    }
}

/// The outcome of an allowance-gated transfer: the allowance check comes
/// first, then the transfer checks; a success spends exactly `amount` of
/// the allowance and moves exactly `amount` of balance.
pub open spec fn transfer_from_outcome(
    pre: Token,
    post: Token,
    owner: Seq<u8>,
    spender: Seq<u8>,
    recipient: Seq<u8>,
    amount: u128,
    r: Result<(), Error>,
) -> bool {
    match r {
        Ok(_) => {
            &&& pre.allowance_of(owner, spender) >= amount
            &&& pre.balance_of(owner) >= amount
            &&& (owner == recipient || pre.balance_of(recipient) + amount <= u128::MAX)
            &&& post.allowance_of(owner, spender) == pre.allowance_of(owner, spender) - amount
            &&& forall|o: Seq<u8>, p: Seq<u8>|
                !(o == owner && p == spender) ==> post.allowance_of(o, p) == pre.allowance_of(o, p)
            &&& moved_balances(pre, post, owner, recipient, amount)
            &&& logs_appended(pre, post, owner, recipient, amount)
            &&& post.total_supply == pre.total_supply
            &&& post.constants == pre.constants
            &&& post.viewing_keys == pre.viewing_keys
            &&& post.receiver_hooks == pre.receiver_hooks
        },
        Err(e) => {
            &&& post == pre
            &&& match e {
                Error::InsufficientAllowance { allowance, required } => {
                    &&& allowance == pre.allowance_of(owner, spender)
                    &&& required == amount
                    &&& allowance < amount
                },
                Error::InsufficientFunds { balance, required } => {
                    &&& pre.allowance_of(owner, spender) >= amount
                    &&& balance == pre.balance_of(owner)
                    &&& required == amount
                    &&& balance < amount
                },
                Error::BalanceOverflow => {
                    &&& pre.allowance_of(owner, spender) >= amount
                    &&& pre.balance_of(owner) >= amount
                    &&& owner != recipient
                    &&& pre.balance_of(recipient) + amount > u128::MAX
                },
                _ => false,
            }
        },
    }
}

/// The outcome of a burn (and of the debit half of a withdraw): the
/// sender's balance and the total supply both shrink by exactly `amount`,
/// or nothing changes.
pub open spec fn burn_outcome(
    pre: Token,
    post: Token,
    account: Seq<u8>,
    amount: u128,
    r: Result<(), Error>,
) -> bool {
    match r {
        Ok(_) => {
            &&& pre.balance_of(account) >= amount
            &&& post.balance_of(account) == pre.balance_of(account) - amount
            &&& forall|b: Seq<u8>| b != account ==> post.balance_of(b) == pre.balance_of(b)
            &&& post.total_supply == pre.total_supply - amount
            &&& post.constants == pre.constants
            &&& post.allowances == pre.allowances
            &&& post.logs == pre.logs
            &&& post.viewing_keys == pre.viewing_keys
            &&& post.receiver_hooks == pre.receiver_hooks
        },
        Err(e) => {
            &&& post == pre
            &&& match e {
                Error::InsufficientFunds { balance, required } => {
                    &&& balance == pre.balance_of(account)
                    &&& required == amount
                    &&& balance < amount
                },
                _ => false,
            }
        },
    }
}

/// The outcome of a deposit of `amount` recognized native units: a mint of
/// exactly that much for the sender, rejected when nothing recognized was
/// sent or when the supply would overflow.
pub open spec fn deposit_outcome(
    pre: Token,
    post: Token,
    account: Seq<u8>,
    amount: u128,
    r: Result<(), Error>,
) -> bool {
    match r {
        Ok(_) => {
            &&& amount > 0
            &&& pre.total_supply + amount <= u128::MAX
            &&& post.balance_of(account) == pre.balance_of(account) + amount
            &&& forall|b: Seq<u8>| b != account ==> post.balance_of(b) == pre.balance_of(b)
            &&& post.total_supply == pre.total_supply + amount
            &&& post.constants == pre.constants
            &&& post.allowances == pre.allowances
            &&& post.logs == pre.logs
            &&& post.viewing_keys == pre.viewing_keys
            &&& post.receiver_hooks == pre.receiver_hooks
        },
        Err(e) => {
            &&& post == pre
            &&& match e {
                Error::NoFundsSent => amount == 0,
                Error::BalanceOverflow => amount > 0 && pre.total_supply + amount > u128::MAX,
                _ => false,
            }
        },
    }
}

/// The single recognized native denomination.
pub open spec fn native_denom() -> Seq<u8> {
    seq![117u8, 115u8, 99u8, 114u8, 116u8]
}

pub fn native_denom_bytes() -> (r: Vec<u8>)
    ensures
        r@ == native_denom(),
{
    let mut r: Vec<u8> = Vec::new();
    r.push(117);
    r.push(115);
    r.push(99);
    r.push(114);
    r.push(116);
    proof {
        assert(r@ =~= native_denom());
    }
    r
}

/// The deposited amount a list of attached funds resolves to: the amount of
/// the last entry in the recognized denomination, or zero when there is
/// none.
pub open spec fn deposit_amount(s: Seq<Coin>) -> u128
    decreases s.len(),
{
    if s.len() == 0 {
        0u128
    } else if s.last().denom@ == native_denom() {
        s.last().amount
    } else {
        deposit_amount(s.drop_last())
    }
}

pub fn find_deposit_amount(funds: &Vec<Coin>) -> (r: u128)
    ensures
        r == deposit_amount(funds@),
{
    let denom = native_denom_bytes();
    let mut amount: u128 = 0;
    let n = funds.len();
    let mut i: usize = 0;
    while i < n
        invariant
            n == funds@.len(),
            i <= n,
            denom@ == native_denom(),
            amount == deposit_amount(funds@.take(i as int)),
        decreases n - i,
    {
        if bytes_eq(&funds[i].denom, &denom) {
            amount = funds[i].amount;
        }
        proof {
            assert(funds@.take(i + 1).drop_last() =~= funds@.take(i as int));
            assert(funds@.take(i + 1).last() == funds@[i as int]);
        }
        i += 1;
    }
    proof {
        assert(funds@.take(n as int) =~= funds@);
    }
    amount
}

impl Token {
    /// Moves `amount` from `from` to `to`, validating both the debit and the
    /// credit before either write, so a failure is never partially applied.
    pub fn perform_transfer(&mut self, from: &Vec<u8>, to: &Vec<u8>, amount: u128) -> (r: Result<
        (),
        Error,
    >)
        requires
            old(self).wf(),
        ensures
            final(self).wf(),
            perform_transfer_outcome(*old(self), *final(self), from@, to@, amount, r),
    {
        let from_balance = get_balance(&self.balances, from);
        if from_balance < amount {
            return Err(Error::InsufficientFunds { balance: from_balance, required: amount });
        }
        if bytes_eq(from, to) {
            return Ok(());
        }
        let to_balance = get_balance(&self.balances, to);
        match to_balance.checked_add(amount) {
            None => Err(Error::BalanceOverflow),
            Some(new_to) => {
                set_balance(&mut self.balances, from, from_balance - amount);
                set_balance(&mut self.balances, to, new_to);
                Ok(())
            },
        }
    }

    /// Appends the record of a completed transfer to both parties' logs
    /// (once, when they are the same account).
    pub fn store_transfer(&mut self, from: &Vec<u8>, to: &Vec<u8>, amount: u128)
        requires
            old(self).wf(),
        ensures
            final(self).wf(),
            logs_appended(*old(self), *final(self), from@, to@, amount),
            final(self).constants == old(self).constants,
            final(self).total_supply == old(self).total_supply,
            final(self).balances == old(self).balances,
            final(self).allowances == old(self).allowances,
            final(self).viewing_keys == old(self).viewing_keys,
            final(self).receiver_hooks == old(self).receiver_hooks,
    {
        let symbol = self.constants.symbol.clone();
        let rec = TransferRecord { from: copy_bytes(from), to: copy_bytes(to), amount, symbol };
        if bytes_eq(from, to) {
            append_record(&mut self.logs, from, rec);
        } else {
            let rec2 = crate::transfers::clone_record(&rec);
            append_record(&mut self.logs, from, rec);
            append_record(&mut self.logs, to, rec2);
        }
    }

    /// Spends `amount` of the allowance `owner` granted `sender`, then
    /// transfers that amount from `owner` to `recipient`, as one unit: every
    /// check runs before any write, so a failure leaves allowance and
    /// balances exactly as they were.
    pub fn try_transfer_from(
        &mut self,
        sender: &Vec<u8>,
        owner: &Vec<u8>,
        recipient: &Vec<u8>,
        amount: u128,
    ) -> (r: Result<(), Error>)
        requires
            old(self).wf(),
        ensures
            final(self).wf(),
            transfer_from_outcome(
                *old(self),
                *final(self),
                owner@,
                sender@,
                recipient@,
                amount,
                r,
            ),
    {
        let allowance = self.allowances.read_allowance(owner, sender);
        if allowance < amount {
            return Err(Error::InsufficientAllowance { allowance, required: amount });
        }
        match self.perform_transfer(owner, recipient, amount) {
            Err(e) => Err(e),
            Ok(_) => {
                self.allowances.write_allowance(owner, sender, allowance - amount);
                self.store_transfer(owner, recipient, amount);
                Ok(())
            },
        }
    }

    /// Grants `spender` a spending ceiling of exactly `amount`: an absolute
    /// overwrite, never an increment.
    pub fn try_approve(&mut self, sender: &Vec<u8>, spender: &Vec<u8>, amount: u128)
        requires
            old(self).wf(),
        ensures
            final(self).wf(),
            final(self).allowance_of(sender@, spender@) == amount,
            forall|o: Seq<u8>, p: Seq<u8>|
                !(o == sender@ && p == spender@) ==> final(self).allowance_of(o, p) == old(self).allowance_of(o, p),
            final(self).constants == old(self).constants,
            final(self).total_supply == old(self).total_supply,
            final(self).balances == old(self).balances,
            final(self).logs == old(self).logs,
            final(self).viewing_keys == old(self).viewing_keys,
            final(self).receiver_hooks == old(self).receiver_hooks,
    {
        self.allowances.write_allowance(sender, spender, amount);
    }

    /// Reads the allowance `sender` granted `spender` (zero when none).
    pub fn try_check_allowance(&self, sender: &Vec<u8>, spender: &Vec<u8>) -> (r: u128)
        ensures
            r == self.allowance_of(sender@, spender@),
    {
        self.allowances.read_allowance(sender, spender)
    }

    /// Removes `amount` tokens from the sender's balance and from the total
    /// supply, irreversibly; the one operation (with withdraw) allowed to
    /// shrink the token universe.
    pub fn try_burn(&mut self, sender: &Vec<u8>, amount: u128) -> (r: Result<(), Error>)
        requires
            old(self).wf(),
        ensures
            final(self).wf(),
            burn_outcome(*old(self), *final(self), sender@, amount, r),
    {
        let balance = get_balance(&self.balances, sender);
        if balance < amount {
            return Err(Error::InsufficientFunds { balance, required: amount });
        }
        proof {
            lemma_find_le_sum(self.balances.entries@, sender@);
        }
        set_balance(&mut self.balances, sender, balance - amount);
        self.total_supply = self.total_supply - amount;
        Ok(())
    }

    /// Credits the sender with the recognized native funds attached to the
    /// request, minting the same amount of supply. Attaching no recognized
    /// funds is an error; so is growing the supply past its representation.
    pub fn try_deposit(&mut self, sender: &Vec<u8>, funds: &Vec<Coin>) -> (r: Result<(), Error>)
        requires
            old(self).wf(),
        ensures
            final(self).wf(),
            deposit_outcome(*old(self), *final(self), sender@, deposit_amount(funds@), r),
    {
        let amount = find_deposit_amount(funds);
        if amount == 0 {
            return Err(Error::NoFundsSent);
        }
        match self.total_supply.checked_add(amount) {
            None => Err(Error::BalanceOverflow),
            Some(new_supply) => {
                let balance = get_balance(&self.balances, sender);
                proof {
                    lemma_find_le_sum(self.balances.entries@, sender@);
                }
                set_balance(&mut self.balances, sender, balance + amount);
                self.total_supply = new_supply;
                Ok(())
            },
        }
    }

    /// Debits the sender and shrinks the supply like a burn, and asks the
    /// host to move the same amount of native currency back to the sender.
    pub fn try_withdraw(&mut self, sender: &Vec<u8>, amount: u128) -> (r: Result<Effect, Error>)
        requires
            old(self).wf(),
        ensures
            final(self).wf(),
            burn_outcome(
                *old(self),
                *final(self),
                sender@,
                amount,
                match r {
                    Ok(_) => Ok(()),
                    Err(e) => Err(e),
                },
            ),
            match r {
                Ok(eff) => eff matches Effect::NativeTransfer { recipient, amount: a, denom }
                    && recipient@ == sender@ && a == amount && denom@ == native_denom(),
                Err(_) => true,
            },
    {
        match self.try_burn(sender, amount) {
            Err(e) => Err(e),
            Ok(_) => Ok(
                Effect::NativeTransfer {
                    recipient: copy_bytes(sender),
                    amount,
                    denom: native_denom_bytes(),
                },
            ),
        }
    }

    /// A direct transfer: the balance move and the history append as one
    /// logical unit; any failure leaves the state exactly as it was.
    pub fn try_transfer_impl(&mut self, sender: &Vec<u8>, recipient: &Vec<u8>, amount: u128) -> (r:
        Result<(), Error>)
        requires
            old(self).wf(),
        ensures
            final(self).wf(),
            transfer_outcome(*old(self), *final(self), sender@, recipient@, amount, r),
    {
        match self.perform_transfer(sender, recipient, amount) {
            Err(e) => Err(e),
            Ok(_) => {
                self.store_transfer(sender, recipient, amount);
                Ok(())
            },
        }
    }

    /// The user-facing transfer operation.
    pub fn try_transfer(&mut self, sender: &Vec<u8>, recipient: &Vec<u8>, amount: u128) -> (r:
        Result<(), Error>)
        requires
            old(self).wf(),
        ensures
            final(self).wf(),
            transfer_outcome(*old(self), *final(self), sender@, recipient@, amount, r),
    {
        self.try_transfer_impl(sender, recipient, amount)
    }

    /// A transfer that, when the recipient has registered a receiver hook,
    /// additionally asks the host to invoke that hook with the attached
    /// payload; no registration means no callback and no error.
    pub fn try_send(
        &mut self,
        sender: &Vec<u8>,
        recipient: &Vec<u8>,
        amount: u128,
        payload: Vec<u8>,
    ) -> (r: Result<Option<Effect>, Error>)
        requires
            old(self).wf(),
        ensures
            final(self).wf(),
            transfer_outcome(
                *old(self),
                *final(self),
                sender@,
                recipient@,
                amount,
                match r {
                    Ok(_) => Ok(()),
                    Err(e) => Err(e),
                },
            ),
            match r {
                Ok(eff) => match old(self).hook_of(recipient@) {
                    Some(h) => eff matches Some(Effect::Callback { recipient: rc, code_hash, payload: pl })
                        && rc@ == recipient@ && code_hash@ == h && pl@ == payload@,
                    None => eff is None,
                },
                Err(_) => true,
            },
    {
        match self.try_transfer_impl(sender, recipient, amount) {
            Err(e) => Err(e),
            Ok(_) => {
                match self.receiver_hooks.get(recipient) {
                    Some(h) => Ok(
                        Some(
                            Effect::Callback {
                                recipient: copy_bytes(recipient),
                                code_hash: h.clone(),
                                payload,
                            },
                        ),
                    ),
                    None => Ok(None),
                }
            },
        }
    }

    /// Registers (or overwrites) the recipient-side callback identifier for
    /// the sender's account.
    pub fn try_register_receive(&mut self, sender: &Vec<u8>, code_hash: String)
        requires
            old(self).wf(),
        ensures
            final(self).wf(),
            final(self).hook_of(sender@) == Some(code_hash@),
            forall|b: Seq<u8>| b != sender@ ==> final(self).hook_of(b) == old(self).hook_of(b),
            final(self).constants == old(self).constants,
            final(self).total_supply == old(self).total_supply,
            final(self).balances == old(self).balances,
            final(self).allowances == old(self).allowances,
            final(self).logs == old(self).logs,
            final(self).viewing_keys == old(self).viewing_keys,
    {
        let ghost pre = *self;
        self.receiver_hooks.set(sender, code_hash);
        proof {
            let found = pre.receiver_hooks.spec_find(sender@);
            assert(found is Some || found is None);
            assert(self.receiver_hooks.spec_find(sender@) is Some);
            assert forall|b: Seq<u8>| b != sender@ implies self.hook_of(b) == pre.hook_of(b) by {
                assert(self.receiver_hooks.spec_find(b) == pre.receiver_hooks.spec_find(b));
            }
        }
    }

    /// Stores an externally chosen viewing key for the sender, after a
    /// surface-format check; an invalid key is reported as a failure status
    /// in the response body and stores nothing.
    pub fn try_set_key(&mut self, sender: &Vec<u8>, key: Vec<u8>) -> (st: ResponseStatus)
        requires
            old(self).wf(),
        ensures
            final(self).wf(),
            if spec_valid_key(key@) {
                &&& st == ResponseStatus::Success
                &&& final(self).key_of(sender@) == Some(key@)
                &&& forall|b: Seq<u8>| b != sender@ ==> final(self).key_of(b) == old(self).key_of(b)
                &&& final(self).constants == old(self).constants
                &&& final(self).total_supply == old(self).total_supply
                &&& final(self).balances == old(self).balances
                &&& final(self).allowances == old(self).allowances
                &&& final(self).logs == old(self).logs
                &&& final(self).receiver_hooks == old(self).receiver_hooks
            } else {
                st == ResponseStatus::Failure && *final(self) == *old(self)
            },
    {
        if !is_valid_key(&key) {
            return ResponseStatus::Failure;
        }
        let ghost pre = *self;
        self.viewing_keys.set(sender, key);
        proof {
            let found = pre.viewing_keys.spec_find(sender@);
            assert(found is Some || found is None);
            assert(self.viewing_keys.spec_find(sender@) is Some);
            assert forall|b: Seq<u8>| b != sender@ implies self.key_of(b) == pre.key_of(b) by {
                assert(self.viewing_keys.spec_find(b) == pre.viewing_keys.spec_find(b));
            }
        }
        ResponseStatus::Success
    }

    /// Derives a fresh viewing key from the caller's entropy and the
    /// host-provided request context, stores it (overwriting any previous
    /// key), and hands it back. Always succeeds.
    pub fn try_create_key(&mut self, sender: &Vec<u8>, entropy: &Vec<u8>, context: &Vec<u8>) -> (key:
        Vec<u8>)
        requires
            old(self).wf(),
            context@.len() + entropy@.len() + 4 <= usize::MAX,
        ensures
            final(self).wf(),
            key@ == spec_derived_key(context@, entropy@),
            final(self).key_of(sender@) == Some(key@),
            forall|b: Seq<u8>| b != sender@ ==> final(self).key_of(b) == old(self).key_of(b),
            final(self).constants == old(self).constants,
            final(self).total_supply == old(self).total_supply,
            final(self).balances == old(self).balances,
            final(self).allowances == old(self).allowances,
            final(self).logs == old(self).logs,
            final(self).receiver_hooks == old(self).receiver_hooks,
    {
        let key = derive_key(context, entropy);
        let stored = copy_bytes(&key);
        let ghost pre = *self;
        self.viewing_keys.set(sender, stored);
        proof {
            let found = pre.viewing_keys.spec_find(sender@);
            assert(found is Some || found is None);
            assert(self.viewing_keys.spec_find(sender@) is Some);
            assert forall|b: Seq<u8>| b != sender@ implies self.key_of(b) == pre.key_of(b) by {
                assert(self.viewing_keys.spec_find(b) == pre.viewing_keys.spec_find(b));
            }
        }
        key
    }

    /// Whether `candidate` authenticates reads for `account`; timing-uniform
    /// across "no key stored" and "wrong key".
    pub fn verify_key(&self, account: &Vec<u8>, candidate: &Vec<u8>) -> (r: bool)
        ensures
            r == key_matches(self.viewing_keys, account@, candidate@),
    {
        check_viewing_key(&self.viewing_keys, account, candidate)
    }

    /// The sender's balance rendered as whole tokens with the symbol, or
    /// `None` for balances beyond the renderer's range.
    pub fn get_balance(&self, account: &Vec<u8>) -> (r: Option<String>)
        requires
            self.wf(),
        ensures
            balance_display_outcome(*self, account@, r),
    {
        let amount = crate::ledger::get_balance(&self.balances, account);
        to_display_token(amount, &self.constants.symbol, self.constants.decimals)
    }

    /// The request-set entry that reports the sender's own balance.
    pub fn try_balance(&self, sender: &Vec<u8>) -> (r: Option<String>)
        requires
            self.wf(),
        ensures
            balance_display_outcome(*self, sender@, r),
    {
        self.get_balance(sender)
    }

    /// The authenticated balance read (authentication is the caller's step;
    /// see `query`).
    pub fn query_balance(&self, account: &Vec<u8>) -> (r: Option<String>)
        requires
            self.wf(),
        ensures
            balance_display_outcome(*self, account@, r),
    {
        self.get_balance(account)
    }

    /// The authenticated, paginated history read.
    pub fn query_transactions(&self, account: &Vec<u8>, start: u32, count: u32) -> (r: Vec<
        TransferRecord,
    >)
        ensures
            views_of(r@) == page_of(self.transfers_of(account@), start as int, count as int),
    {
        read_transfers(&self.logs, account, start, count)
    }

    /// The read-only entry point: resolves the account, verifies its viewing
    /// key — in a timing-uniform way, against a dummy when none is stored —
    /// and only then reads. Both failure causes produce one generic message.
    pub fn query(&self, req: &QueryRequest) -> (r: QueryAnswer)
        requires
            self.wf(),
        ensures
            match *req {
                QueryRequest::Balance { ref address, ref key } => {
                    if key_matches(self.viewing_keys, address@, key@) {
                        r matches QueryAnswer::Balance { display } && balance_display_outcome(
                            *self,
                            address@,
                            display,
                        )
                    } else {
                        r matches QueryAnswer::Denied { message } && message@ == denial_message()
                    }
                },
                QueryRequest::Transfers { ref address, ref key, start, count } => {
                    if key_matches(self.viewing_keys, address@, key@) {
                        r matches QueryAnswer::Transfers { records } && views_of(records@)
                            == page_of(self.transfers_of(address@), start as int, count as int)
                    } else {
                        r matches QueryAnswer::Denied { message } && message@ == denial_message()
                    }
                },
            },
    {
        match req {
            QueryRequest::Balance { address, key } => {
                if !self.verify_key(address, key) {
                    QueryAnswer::Denied { message: denial() }
                } else {
                    QueryAnswer::Balance { display: self.query_balance(address) }
                }
            },
            QueryRequest::Transfers { address, key, start, count } => {
                if !self.verify_key(address, key) {
                    QueryAnswer::Denied { message: denial() }
                } else {
                    QueryAnswer::Transfers {
                        records: self.query_transactions(address, *start, *count),
                    }
                }
            },
        }
    }
}

/// The sum of all starting amounts.
pub open spec fn amounts_sum(s: Seq<InitialBalance>) -> int
    decreases s.len(),
{
    if s.len() == 0 {
        0
    } else {
        amounts_sum(s.drop_last()) + s.last().amount
    }
}

/// The starting amount owed to one address: the sum of its entries.
pub open spec fn amount_for(s: Seq<InitialBalance>, a: Seq<u8>) -> int
    decreases s.len(),
{
    if s.len() == 0 {
        0
    } else {
        amount_for(s.drop_last(), a) + (if s.last().address@ == a {
            s.last().amount as int
        } else {
            0
        })
    }
}

/// The starting amounts are non-negative, so every prefix sum is bounded by
/// the whole sum.
pub proof fn lemma_amounts_sum_prefix(s: Seq<InitialBalance>, j: int)
    requires
        0 <= j <= s.len(),
    ensures
        amounts_sum(s.take(j)) <= amounts_sum(s),
    decreases s.len() - j,
{
    if j == s.len() {
        assert(s.take(j) =~= s);
    } else {
        lemma_amounts_sum_prefix(s, j + 1);
        assert(s.take(j + 1).drop_last() =~= s.take(j));
        assert(s.take(j + 1).last() == s[j]);
    }
}

/// The outcome of initialization: the constants validated and set, every
/// starting balance credited, the total supply equal to the sum of the
/// starting amounts, and everything else empty; or the exact validation
/// error.
pub open spec fn init_outcome(
    name: Seq<char>,
    symbol: Seq<char>,
    decimals: u8,
    balances: Seq<InitialBalance>,
    r: Result<Token, Error>,
) -> bool {
    match r {
        Ok(t) => {
            &&& spec_valid_name(encode_utf8(name))
            &&& spec_valid_symbol(encode_utf8(symbol))
            &&& decimals <= 18
            &&& amounts_sum(balances) <= u128::MAX
            &&& t.wf()
            &&& t.constants.name@ == name
            &&& t.constants.symbol@ == symbol
            &&& t.constants.decimals == decimals
            &&& t.total_supply as int == amounts_sum(balances)
            &&& forall|a: Seq<u8>| t.balance_of(a) == amount_for(balances, a)
            &&& forall|o: Seq<u8>, p: Seq<u8>| t.allowance_of(o, p) == 0
            &&& forall|a: Seq<u8>| t.transfers_of(a) == Seq::<RecordView>::empty()
            &&& forall|a: Seq<u8>| t.key_of(a) is None
            &&& forall|a: Seq<u8>| t.hook_of(a) is None
        },
        Err(e) => match e {
            Error::InvalidName => !spec_valid_name(encode_utf8(name)),
            Error::InvalidSymbol => spec_valid_name(encode_utf8(name)) && !spec_valid_symbol(
                encode_utf8(symbol),
            ),
            Error::InvalidDecimals => spec_valid_name(encode_utf8(name)) && spec_valid_symbol(
                encode_utf8(symbol),
            ) && decimals > 18,
            Error::BalanceOverflow => spec_valid_name(encode_utf8(name)) && spec_valid_symbol(
                encode_utf8(symbol),
            ) && decimals <= 18 && amounts_sum(balances) > u128::MAX,
            _ => false,
        },
    }
}

/// Sets up the ledger: validates name, symbol and decimal precision,
/// credits every starting balance, and sets the total supply to their sum.
pub fn init(
    name: String,
    symbol: String,
    decimals: u8,
    initial_balances: &Vec<InitialBalance>,
) -> (r: Result<Token, Error>)
    ensures
        init_outcome(name@, symbol@, decimals, initial_balances@, r),
{
    let ghost n0 = name@;
    let ghost sym0 = symbol@;
    if !is_valid_name(name.as_str()) {
        return Err(Error::InvalidName);
    }
    if !is_valid_symbol(symbol.as_str()) {
        return Err(Error::InvalidSymbol);
    }
    if decimals > 18 {
        return Err(Error::InvalidDecimals);
    }
    let n = initial_balances.len();
    let mut total: u128 = 0;
    let mut i: usize = 0;
    while i < n
        invariant
            n == initial_balances@.len(),
            i <= n,
            spec_valid_name(encode_utf8(name@)),
            spec_valid_symbol(encode_utf8(symbol@)),
            decimals <= 18,
            name@ == n0,
            symbol@ == sym0,
            total as int == amounts_sum(initial_balances@.take(i as int)),
        decreases n - i,
    {
        proof {
            assert(initial_balances@.take(i + 1).drop_last() =~= initial_balances@.take(i as int));
            assert(initial_balances@.take(i + 1).last() == initial_balances@[i as int]);
        }
        match total.checked_add(initial_balances[i].amount) {
            None => {
                proof {
                    lemma_amounts_sum_prefix(initial_balances@, i + 1);
                }
                return Err(Error::BalanceOverflow);
            },
            Some(v) => {
                total = v;
            },
        }
        i += 1;
    }
    proof {
        assert(initial_balances@.take(n as int) =~= initial_balances@);
    }
    let ghost whole_sum = amounts_sum(initial_balances@);
    let mut t = Token {
        constants: Constants { name, symbol, decimals },
        total_supply: 0,
        balances: Store::new(),
        allowances: Allowances::new(),
        logs: Store::new(),
        viewing_keys: Store::new(),
        receiver_hooks: Store::new(),
    };
    proof {
        assert(sum_of(t.balances.entries@) == 0);
        assert(initial_balances@.take(0) =~= Seq::<InitialBalance>::empty());
        assert forall|a: Seq<u8>|
            t.balance_of(a) == amount_for(initial_balances@.take(0), a) by {
            assert(amount_for(initial_balances@.take(0), a) == 0);
        }
    }
    let mut j: usize = 0;
    while j < n
        invariant
            n == initial_balances@.len(),
            j <= n,
            whole_sum == amounts_sum(initial_balances@),
            whole_sum <= u128::MAX,
            t.wf(),
            t.constants.name@ == n0,
            t.constants.symbol@ == sym0,
            t.constants.decimals == decimals,
            t.total_supply as int == amounts_sum(initial_balances@.take(j as int)),
            forall|a: Seq<u8>| t.balance_of(a) == amount_for(initial_balances@.take(j as int), a),
            forall|o: Seq<u8>, p: Seq<u8>| t.allowance_of(o, p) == 0,
            forall|a: Seq<u8>| t.transfers_of(a) == Seq::<RecordView>::empty(),
            forall|a: Seq<u8>| t.key_of(a) is None,
            forall|a: Seq<u8>| t.hook_of(a) is None,
        decreases n - j,
    {
        let amount = initial_balances[j].amount;
        let ghost prefix = initial_balances@.take(j as int);
        proof {
            assert(initial_balances@.take(j + 1).drop_last() =~= prefix);
            assert(initial_balances@.take(j + 1).last() == initial_balances@[j as int]);
            lemma_amounts_sum_prefix(initial_balances@, j + 1);
        }
        let balance = get_balance(&t.balances, &initial_balances[j].address);
        proof {
            lemma_find_le_sum(t.balances.entries@, initial_balances@[j as int].address@);
        }
        let ghost tpre = t;
        set_balance(&mut t.balances, &initial_balances[j].address, balance + amount);
        t.total_supply = t.total_supply + amount;
        proof {
            assert(t.allowances == tpre.allowances);
            assert(t.logs == tpre.logs);
            assert(t.viewing_keys == tpre.viewing_keys);
            assert(t.receiver_hooks == tpre.receiver_hooks);
            assert forall|o: Seq<u8>, p: Seq<u8>| t.allowance_of(o, p) == 0 by {
                assert(t.allowance_of(o, p) == tpre.allowance_of(o, p));
            }
            assert forall|a: Seq<u8>| t.transfers_of(a) == Seq::<RecordView>::empty() by {
                assert(t.transfers_of(a) == tpre.transfers_of(a));
            }
            assert forall|a: Seq<u8>| t.key_of(a) is None by {
                assert(t.key_of(a) == tpre.key_of(a));
            }
            assert forall|a: Seq<u8>| t.hook_of(a) is None by {
                assert(t.hook_of(a) == tpre.hook_of(a));
            }
            assert forall|a: Seq<u8>|
                t.balance_of(a) == amount_for(initial_balances@.take(j + 1), a) by {
                assert(tpre.balance_of(a) == amount_for(prefix, a));
                assert(balance_in(t.balances, a) == (if a == initial_balances@[j as int].address@ {
                    (balance + amount) as u128
                } else {
                    balance_in(tpre.balances, a)
                }));
                assert(amount_for(initial_balances@.take(j + 1), a) == amount_for(prefix, a) + (
                if initial_balances@[j as int].address@ == a {
                    amount as int
                } else {
                    0
                }));
                if a == initial_balances@[j as int].address@ {
                    assert(balance == amount_for(prefix, a));
                    assert(t.balance_of(a) == balance + amount);
                } else {
                    assert(t.balance_of(a) == tpre.balance_of(a));
                }
            }
        }
        j += 1;
    }
    proof {
        assert(initial_balances@.take(n as int) =~= initial_balances@);
    }
    Ok(t)
}

impl Token {
    /// The state-changing entry point: dispatches one request from `sender`
    /// and reports the outcome plus any outbound effects for the host to
    /// carry out. Every failure is returned with the state untouched.
    pub fn handle(&mut self, sender: &Vec<u8>, msg: Request) -> (r: Result<Response, Error>)
        requires
            old(self).wf(),
            match msg {
                Request::CreateViewingKey { ref entropy, ref context } => context@.len()
                    + entropy@.len() + 4 <= usize::MAX,
                _ => true,
            },
        ensures
            final(self).wf(),
            match msg {
                Request::Deposit { ref funds } => match r {
                    Ok(ref resp) => deposit_outcome(
                        *old(self),
                        *final(self),
                        sender@,
                        deposit_amount(funds@),
                        Ok(()),
                    ) && resp.status == ResponseStatus::Success && resp.effects@.len() == 0,
                    Err(e) => deposit_outcome(
                        *old(self),
                        *final(self),
                        sender@,
                        deposit_amount(funds@),
                        Err(e),
                    ),
                },
                Request::Withdraw { amount } => match r {
                    Ok(ref resp) => burn_outcome(*old(self), *final(self), sender@, amount, Ok(()))
                        && resp.status == ResponseStatus::Success && resp.effects@.len() == 1 && (
                    resp.effects@[0] matches Effect::NativeTransfer { ref recipient, amount: a, ref denom }
                        && recipient@ == sender@ && a == amount && denom@ == native_denom()),
                    Err(e) => burn_outcome(*old(self), *final(self), sender@, amount, Err(e)),
                },
                Request::Balance => r matches Ok(ref resp) && resp.status
                    == ResponseStatus::Success && resp.effects@.len() == 0 && *final(self) == *old(self),
                Request::Transfer { ref recipient, amount } => match r {
                    Ok(ref resp) => transfer_outcome(
                        *old(self),
                        *final(self),
                        sender@,
                        recipient@,
                        amount,
                        Ok(()),
                    ) && resp.status == ResponseStatus::Success && resp.effects@.len() == 0,
                    Err(e) => transfer_outcome(
                        *old(self),
                        *final(self),
                        sender@,
                        recipient@,
                        amount,
                        Err(e),
                    ),
                },
                Request::Send { ref recipient, amount, ref payload } => match r {
                    Ok(ref resp) => transfer_outcome(
                        *old(self),
                        *final(self),
                        sender@,
                        recipient@,
                        amount,
                        Ok(()),
                    ) && resp.status == ResponseStatus::Success && (match old(self).hook_of(
                        recipient@,
                    ) {
                        Some(h) => resp.effects@.len() == 1 && (resp.effects@[0] matches Effect::Callback {
                            recipient: ref rc,
                            ref code_hash,
                            payload: ref pl,
                        } && rc@ == recipient@ && code_hash@ == h && pl@ == payload@),
                        None => resp.effects@.len() == 0,
                    }),
                    Err(e) => transfer_outcome(
                        *old(self),
                        *final(self),
                        sender@,
                        recipient@,
                        amount,
                        Err(e),
                    ),
                },
                Request::Burn { amount } => match r {
                    Ok(ref resp) => burn_outcome(*old(self), *final(self), sender@, amount, Ok(()))
                        && resp.status == ResponseStatus::Success && resp.effects@.len() == 0,
                    Err(e) => burn_outcome(*old(self), *final(self), sender@, amount, Err(e)),
                },
                Request::RegisterReceive { ref code_hash } => r matches Ok(ref resp)
                    && resp.status == ResponseStatus::Success && resp.effects@.len() == 0 && final(self).hook_of(sender@) == Some(code_hash@) && (forall|b: Seq<u8>|
                    b != sender@ ==> final(self).hook_of(b) == old(self).hook_of(b)) && final(self).balances == old(self).balances && final(self).allowances == old(self).allowances
                    && final(self).logs == old(self).logs && final(self).viewing_keys == old(self).viewing_keys && final(self).constants == old(self).constants && final(self).total_supply == old(self).total_supply,
                Request::CreateViewingKey { ref entropy, ref context } => r matches Ok(ref resp)
                    && resp.status == ResponseStatus::Success && resp.effects@.len() == 0 && final(self).key_of(sender@) == Some(spec_derived_key(context@, entropy@)) && (forall|
                    b: Seq<u8>,
                |
                    b != sender@ ==> final(self).key_of(b) == old(self).key_of(b)) && final(self).balances == old(self).balances && final(self).allowances == old(self).allowances
                    && final(self).logs == old(self).logs && final(self).receiver_hooks == old(self).receiver_hooks && final(self).constants == old(self).constants && final(self).total_supply == old(self).total_supply,
                Request::SetViewingKey { ref key } => r matches Ok(ref resp) && resp.effects@.len()
                    == 0 && (if spec_valid_key(key@) {
                    resp.status == ResponseStatus::Success && final(self).key_of(sender@) == Some(
                        key@,
                    ) && (forall|b: Seq<u8>|
                        b != sender@ ==> final(self).key_of(b) == old(self).key_of(b)) && final(self).balances == old(self).balances && final(self).allowances == old(self).allowances && final(self).logs == old(self).logs && final(self).receiver_hooks == old(self).receiver_hooks && final(self).constants == old(self).constants && final(self).total_supply == old(self).total_supply
                } else {
                    resp.status == ResponseStatus::Failure && *final(self) == *old(self)
                }),
                Request::Approve { ref spender, amount } => r matches Ok(ref resp) && resp.status
                    == ResponseStatus::Success && resp.effects@.len() == 0 && final(self).allowance_of(sender@, spender@) == amount && (forall|o: Seq<u8>, p: Seq<u8>|
                    !(o == sender@ && p == spender@) ==> final(self).allowance_of(o, p) == old(self).allowance_of(o, p)) && final(self).balances == old(self).balances && final(self).logs == old(self).logs && final(self).viewing_keys == old(self).viewing_keys
                    && final(self).receiver_hooks == old(self).receiver_hooks && final(self).constants == old(self).constants && final(self).total_supply == old(self).total_supply,
                Request::TransferFrom { ref owner, ref recipient, amount } => match r {
                    Ok(ref resp) => transfer_from_outcome(
                        *old(self),
                        *final(self),
                        owner@,
                        sender@,
                        recipient@,
                        amount,
                        Ok(()),
                    ) && resp.status == ResponseStatus::Success && resp.effects@.len() == 0,
                    Err(e) => transfer_from_outcome(
                        *old(self),
                        *final(self),
                        owner@,
                        sender@,
                        recipient@,
                        amount,
                        Err(e),
                    ),
                },
                Request::Allowance { ref spender } => r matches Ok(ref resp) && resp.status
                    == ResponseStatus::Success && resp.effects@.len() == 0 && *final(self) == *old(self),
            },
    {
        match msg {
            Request::Deposit { funds } => {
                match self.try_deposit(sender, &funds) {
                    Err(e) => Err(e),
                    Ok(_) => Ok(
                        Response { status: ResponseStatus::Success, effects: Vec::new() },
                    ),
                }
            },
            Request::Withdraw { amount } => {
                match self.try_withdraw(sender, amount) {
                    Err(e) => Err(e),
                    Ok(eff) => {
                        let mut effects: Vec<Effect> = Vec::new();
                        effects.push(eff);
                        Ok(Response { status: ResponseStatus::Success, effects })
                    },
                }
            },
            Request::Balance => Ok(
                Response { status: ResponseStatus::Success, effects: Vec::new() },
            ),
            Request::Transfer { recipient, amount } => {
                match self.try_transfer(sender, &recipient, amount) {
                    Err(e) => Err(e),
                    Ok(_) => Ok(
                        Response { status: ResponseStatus::Success, effects: Vec::new() },
                    ),
                }
            },
            Request::Send { recipient, amount, payload } => {
                match self.try_send(sender, &recipient, amount, payload) {
                    Err(e) => Err(e),
                    Ok(opt) => {
                        let mut effects: Vec<Effect> = Vec::new();
                        match opt {
                            Some(eff) => {
                                effects.push(eff);
                            },
                            None => {},
                        }
                        Ok(Response { status: ResponseStatus::Success, effects })
                    },
                }
            },
            Request::Burn { amount } => {
                match self.try_burn(sender, amount) {
                    Err(e) => Err(e),
                    Ok(_) => Ok(
                        Response { status: ResponseStatus::Success, effects: Vec::new() },
                    ),
                }
            },
            Request::RegisterReceive { code_hash } => {
                self.try_register_receive(sender, code_hash);
                Ok(Response { status: ResponseStatus::Success, effects: Vec::new() })
            },
            Request::CreateViewingKey { entropy, context } => {
                let _key = self.try_create_key(sender, &entropy, &context);
                Ok(Response { status: ResponseStatus::Success, effects: Vec::new() })
            },
            Request::SetViewingKey { key } => {
                let status = self.try_set_key(sender, key);
                Ok(Response { status, effects: Vec::new() })
            },
            Request::Approve { spender, amount } => {
                self.try_approve(sender, &spender, amount);
                Ok(Response { status: ResponseStatus::Success, effects: Vec::new() })
            },
            Request::TransferFrom { owner, recipient, amount } => {
                match self.try_transfer_from(sender, &owner, &recipient, amount) {
                    Err(e) => Err(e),
                    Ok(_) => Ok(
                        Response { status: ResponseStatus::Success, effects: Vec::new() },
                    ),
                }
            },
            Request::Allowance { spender } => {
                let _allowance = self.try_check_allowance(sender, &spender);
                Ok(Response { status: ResponseStatus::Success, effects: Vec::new() })
            },
        }
    }
}

/// The one generic message returned for every failed read authentication,
/// whether the key was wrong or never set.
pub open spec fn denial_message() -> Seq<char> {
    "Wrong viewing key for this address or viewing key not set"@
}

fn denial() -> (r: String)
    ensures
        r@ == denial_message(),
{
    <String as vstd::string::StringExecFns>::from_str(
        "Wrong viewing key for this address or viewing key not set",
    )
}

/// How a balance renders: the exact display string, or `None` exactly for
/// the amounts past the renderer's fixed-point range.
pub open spec fn balance_display_outcome(t: Token, a: Seq<u8>, r: Option<String>) -> bool {
    match r {
        Some(s) => t.balance_of(a) <= u128::MAX / DECIMAL_FRACTIONAL && s@ == spec_display_token(
            t.balance_of(a),
            t.constants.symbol@,
            t.constants.decimals,
        ),
        None => t.balance_of(a) > u128::MAX / DECIMAL_FRACTIONAL,
    }
}

} // verus!
