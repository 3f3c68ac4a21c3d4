//! Accounting core of a fungible-token ledger: per-account balances with a
//! conservation invariant, spending allowances, an append-only transfer
//! history with pagination, and viewing-key authentication for reads.

pub mod allowances;
pub mod bytes;
pub mod display;
pub mod laws;
pub mod ledger;
pub mod msg;
pub mod store;
pub mod token;
pub mod transfers;
pub mod viewing_key;

use vstd::prelude::*;
use vstd::string::StringSliceAdditionalSpecFns;

verus! {

/// A token name is acceptable when its UTF-8 encoding is 3 to 30 bytes
/// long.
pub open spec fn spec_valid_name(b: Seq<u8>) -> bool {
    3 <= b.len() <= 30
}

/// A ticker symbol is acceptable when its UTF-8 encoding is 3 to 6 bytes
/// long, all of them uppercase ASCII letters.
pub open spec fn spec_valid_symbol(b: Seq<u8>) -> bool {
    &&& 3 <= b.len() <= 6
    &&& forall|j: int| 0 <= j < b.len() ==> 65 <= #[trigger] b[j] <= 90
}

pub fn is_valid_name(name: &str) -> (r: bool)
    ensures
        r == spec_valid_name(name.spec_bytes()),
{
    let len = name.as_bytes().len();
    3 <= len && len <= 30
}

pub fn is_valid_symbol(symbol: &str) -> (r: bool)
    ensures
        r == spec_valid_symbol(symbol.spec_bytes()),
{
    let bs = symbol.as_bytes();
    let n = bs.len();
    if n < 3 || 6 < n {
        return false;
    }
    let mut i: usize = 0;
    while i < n
        invariant
            bs@ == symbol.spec_bytes(),
            n == bs@.len(),
            i <= n,
            forall|j: int| 0 <= j < i ==> 65 <= #[trigger] bs@[j] <= 90,
        decreases n - i,
    {
        let b = *vstd::slice::slice_index_get(bs, i);
        if b < 65 || 90 < b {
            proof {
                assert(!(65 <= bs@[i as int] <= 90));
            }
            return false;
        }
        i += 1;
    }
    true
}

} // verus!
