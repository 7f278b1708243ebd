use vstd::prelude::*;

use crate::types::{Rate, RATE_SCALE};

verus! {

/// floor(amount · atomics / RATE_SCALE): the fee carved out of `amount`
/// by a fixed-point rate, truncated toward zero.
pub open spec fn mul_rate_spec(amount: u128, atomics: u128) -> int {
    (amount * atomics) / (RATE_SCALE as int)
}

/// Relies on cosmwasm_std: `Uint128 * Decimal` returns
/// `floor(self * rhs.atomics / 10^18)`, computed through a 256-bit
/// intermediate (`multiply_ratio`), and panics only when that floor
/// exceeds `u128::MAX`.
#[verifier::external_body]
fn mul_rate_floor(amount: u128, atomics: u128) -> (r: u128)
    requires
        mul_rate_spec(amount, atomics) <= u128::MAX,
    ensures
        r == mul_rate_spec(amount, atomics),
{
    (cosmwasm_std::Uint128::new(amount) * cosmwasm_std::Decimal::raw(atomics)).u128()
}

/// A fee floored from a pot by a rate of at most one never exceeds the pot.
pub proof fn lemma_fee_le_pot(pot: u128, atomics: u128)
    requires
        atomics <= RATE_SCALE,
    ensures
        0 <= mul_rate_spec(pot, atomics) <= pot,
{
    vstd::arithmetic::mul::lemma_mul_inequality(atomics as int, RATE_SCALE as int, pot as int);
    vstd::arithmetic::mul::lemma_mul_is_commutative(pot as int, atomics as int);
    vstd::arithmetic::mul::lemma_mul_is_commutative(pot as int, RATE_SCALE as int);
    vstd::arithmetic::div_mod::lemma_div_is_ordered(
        pot as int * atomics as int,
        RATE_SCALE as int * pot as int,
        RATE_SCALE as int,
    );
    vstd::arithmetic::div_mod::lemma_div_multiples_vanish(pot as int, RATE_SCALE as int);
    vstd::arithmetic::mul::lemma_mul_nonnegative(pot as int, atomics as int);
    vstd::arithmetic::div_mod::lemma_div_is_ordered(0, pot as int * atomics as int, RATE_SCALE as int);
}

/// Splits a pot between the fee recipient and the winner: the fee is the
/// pot multiplied by the rate and floored, the winnings are the rest, and
/// together they restore the pot exactly.
pub fn settle(pot: u128, rate: Rate) -> (r: (u128, u128))
    requires
        rate.is_fraction(),
    ensures
        r.0 == mul_rate_spec(pot, rate.atomics),
        r.0 + r.1 == pot,
{
    proof {
        lemma_fee_le_pot(pot, rate.atomics);
    }
    let fee = mul_rate_floor(pot, rate.atomics);
    (fee, pot - fee)
}

} // verus!
