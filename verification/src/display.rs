//! Rendering an amount as a decimal quantity of whole tokens. The fixed
//! point division and its textual form come from an outside library; the
//! overflow guard around it is verified here.

use vstd::prelude::*;

verus! {

/// The scaling factor of the outside fixed-point type: ten to the
/// eighteenth.
pub const DECIMAL_FRACTIONAL: u128 = 1_000_000_000_000_000_000;

/// The decimal rendering of the ratio `num / den`, as the outside library
/// formats it. It depends on the two integers alone.
pub uninterp spec fn display_ratio(num: int, den: int) -> Seq<char>;

/// Relies on `cosmwasm_std::Decimal::from_ratio`, which computes
/// `num * 10^18 / den` and panics only on a zero denominator or on a result
/// past `u128::MAX` (both excluded by the preconditions), and on
/// `cosmwasm_std::Decimal`'s `Display` rendering of that fixed-point value;
/// both depend on the two integers alone.
#[verifier::external_body]
fn render_ratio(num: u128, den: u128) -> (r: String)
    requires
        1 <= den,
        num <= u128::MAX / DECIMAL_FRACTIONAL,
    ensures
        r@ == display_ratio(num as int, den as int),
{
    let d = cosmwasm_std::Decimal::from_ratio(num, den);
    d.to_string()
}

/// Ten to the power `d`.
pub open spec fn spec_pow10(d: nat) -> int
    decreases d,
{
    if d == 0 {
        1
    } else {
        10 * spec_pow10((d - 1) as nat)
    }
}

pub proof fn lemma_pow10_mono(a: nat, b: nat)
    requires
        a <= b,
    ensures
        1 <= spec_pow10(a) <= spec_pow10(b),
    decreases b,
{
    if a < b {
        lemma_pow10_mono(a, (b - 1) as nat);
    } else if a == b && a > 0 {
        lemma_pow10_mono((a - 1) as nat, (b - 1) as nat);
    }
}

pub proof fn lemma_pow10_17()
    ensures
        spec_pow10(17) == 100_000_000_000_000_000,
{
    assert(spec_pow10(0) == 1);
    assert(spec_pow10(1) == 10);
    assert(spec_pow10(2) == 100);
    assert(spec_pow10(3) == 1000);
    assert(spec_pow10(4) == 10_000);
    assert(spec_pow10(5) == 100_000);
    assert(spec_pow10(6) == 1_000_000);
    assert(spec_pow10(7) == 10_000_000);
    assert(spec_pow10(8) == 100_000_000);
    assert(spec_pow10(9) == 1_000_000_000);
    assert(spec_pow10(10) == 10_000_000_000);
    assert(spec_pow10(11) == 100_000_000_000);
    assert(spec_pow10(12) == 1_000_000_000_000);
    assert(spec_pow10(13) == 10_000_000_000_000);
    assert(spec_pow10(14) == 100_000_000_000_000);
    assert(spec_pow10(15) == 1_000_000_000_000_000);
    assert(spec_pow10(16) == 10_000_000_000_000_000);
    assert(spec_pow10(17) == 100_000_000_000_000_000);
}

pub fn pow10(d: u8) -> (r: u64)
    requires
        d <= 18,
    ensures
        r == spec_pow10(d as nat),
        1 <= r,
{
    let mut r: u64 = 1;
    let mut i: u8 = 0;
    while i < d
        invariant
            i <= d,
            d <= 18,
            r == spec_pow10(i as nat),
        decreases d - i,
    {
        proof {
            lemma_pow10_mono(i as nat, 17);
            lemma_pow10_17();
        }
        r = r * 10;
        i += 1;
    }
    proof {
        lemma_pow10_mono(0, d as nat);
    }
    r
}

/// The rendered form of `amount` base units: the whole-token quantity
/// followed by a space and the ticker symbol.
pub open spec fn spec_display_token(amount: u128, symbol: Seq<char>, decimals: u8) -> Seq<char> {
    display_ratio(amount as int, spec_pow10(decimals as nat)) + seq![' '] + symbol
}

/// Renders an amount of base units as whole tokens with the ticker symbol
/// appended, or `None` for the amounts too large for the fixed-point range
/// of the renderer.
pub fn to_display_token(amount: u128, symbol: &String, decimals: u8) -> (r: Option<String>)
    requires
        decimals <= 18,
    ensures
        match r {
            Some(s) => amount <= u128::MAX / DECIMAL_FRACTIONAL && s@ == spec_display_token(
                amount,
                symbol@,
                decimals,
            ),
            None => amount > u128::MAX / DECIMAL_FRACTIONAL,
        },
{
    if amount > u128::MAX / DECIMAL_FRACTIONAL {
        return None;
    }
    let base = pow10(decimals);
    let mut s = render_ratio(amount, base as u128);
    vstd::string::StringExecFns::append(&mut s, " ");
    vstd::string::StringExecFns::append(&mut s, symbol.as_str());
    proof {
        reveal_strlit(" ");
        assert(" "@ =~= seq![' ']);
        assert(s@ =~= spec_display_token(amount, symbol@, decimals));
    }
    Some(s)
}

} // verus!
