//! Request and response shapes of the core, its closed error taxonomy, and
//! the response padding that hides response length.

use vstd::prelude::*;

verus! {

/// Every way a request can be rejected. Failures carry the amounts involved
/// so callers can diagnose without parsing text; no failure mutates state.
#[derive(Clone, Copy, Debug, PartialEq, Eq, Structural)]
pub enum Error {
    InvalidName,
    InvalidSymbol,
    InvalidDecimals,
    InsufficientFunds { balance: u128, required: u128 },
    InsufficientAllowance { allowance: u128, required: u128 },
    BalanceOverflow,
    NoFundsSent,
}

#[derive(Clone, Copy, Debug, PartialEq, Eq, Structural)]
pub enum ResponseStatus {
    Success,
    Failure,
}

/// A native-currency amount as handed over by the host.
pub struct Coin {
    pub denom: Vec<u8>,
    pub amount: u128,
}

/// One account's starting balance at initialization.
pub struct InitialBalance {
    pub address: Vec<u8>,
    pub amount: u128,
}

/// An outbound effect the host is asked to carry out after the core
/// returns; the core never observes its outcome.
pub enum Effect {
    NativeTransfer { recipient: Vec<u8>, amount: u128, denom: Vec<u8> },
    Callback { recipient: Vec<u8>, code_hash: String, payload: Vec<u8> },
}

/// The result of a successful state-changing request.
pub struct Response {
    pub status: ResponseStatus,
    pub effects: Vec<Effect>,
}

/// The fixed set of state-changing operations.
pub enum Request {
    Deposit { funds: Vec<Coin> },
    Withdraw { amount: u128 },
    Balance,
    Transfer { recipient: Vec<u8>, amount: u128 },
    Send { recipient: Vec<u8>, amount: u128, payload: Vec<u8> },
    Burn { amount: u128 },
    RegisterReceive { code_hash: String },
    CreateViewingKey { entropy: Vec<u8>, context: Vec<u8> },
    SetViewingKey { key: Vec<u8> },
    Approve { spender: Vec<u8>, amount: u128 },
    TransferFrom { owner: Vec<u8>, recipient: Vec<u8>, amount: u128 },
    Allowance { spender: Vec<u8> },
}

/// The read-only request set; both carry the caller's viewing key.
pub enum QueryRequest {
    Balance { address: Vec<u8>, key: Vec<u8> },
    Transfers { address: Vec<u8>, key: Vec<u8>, start: u32, count: u32 },
}

/// A read-only answer: the authenticated result, or one generic denial that
/// never distinguishes a wrong key from an absent one.
pub enum QueryAnswer {
    Denied { message: String },
    Balance { display: Option<String> },
    Transfers { records: Vec<crate::transfers::TransferRecord> },
}

/// Pads a response body with spaces to the next multiple of `block_size`,
/// always adding at least one byte, so response length reveals nothing finer
/// than the block granularity.
pub fn space_pad(block_size: usize, message: &mut Vec<u8>)
    requires
        1 <= block_size,
        old(message)@.len() + block_size <= usize::MAX,
    ensures
        final(message)@.len() == old(message)@.len() + (block_size - (old(message)@.len() as int)
            % (block_size as int)),
        (final(message)@.len() as int) % (block_size as int) == 0,
        final(message)@.subrange(0, old(message)@.len() as int) == old(message)@,
        forall|j: int|
            old(message)@.len() <= j < final(message)@.len() ==> final(message)@[j] == 32u8,
{
    let len = message.len();
    let missing = block_size - len % block_size;
    let ghost m0 = message@;
    let mut i: usize = 0;
    while i < missing
        invariant
            i <= missing,
            message@.len() == m0.len() + i,
            m0.len() + missing <= usize::MAX,
            message@.subrange(0, m0.len() as int) =~= m0,
            forall|j: int| m0.len() <= j < message@.len() ==> message@[j] == 32u8,
        decreases missing - i,
    {
        message.push(32u8);
        proof {
            assert(message@.subrange(0, m0.len() as int) =~= m0);
        }
        i += 1;
    }
    proof {
        let b = block_size as int;
        let n = m0.len() as int;
        vstd::arithmetic::div_mod::lemma_fundamental_div_mod(n, b);
        vstd::arithmetic::div_mod::lemma_mod_bound(n, b);
        assert(message@.len() as int == n + b - n % b);
        assert(message@.len() as int == (n / b + 1) * b) by (nonlinear_arith)
            requires
                n == b * (n / b) + n % b,
                message@.len() as int == n + b - n % b,
        ;
        vstd::arithmetic::div_mod::lemma_mod_multiples_basic(n / b + 1, b);
    }
}

} // verus!
