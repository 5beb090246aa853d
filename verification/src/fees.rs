//! The protocol fee: a fraction of the price in basis points, with the remainder of the
//! rounding left to the seller.

use vstd::arithmetic::div_mod::{lemma_div_is_ordered, lemma_hoist_over_denominator};
use vstd::prelude::*;

verus! {

/// The number of basis points that make the whole price.
pub const BASIS_POINTS: u128 = 10000;

/// The fee percentage of a marketplace that has not changed it: five percent.
pub const DEFAULT_FEE_PERCENTAGE: u128 = 500;

/// The fee on `price` at `fee_percentage` basis points, rounded down.
pub open spec fn fee_of(price: nat, fee_percentage: nat) -> nat {
    (price * fee_percentage) / 10000
}

/// What is left of `price` for the seller once the fee is taken.
pub open spec fn seller_share(price: nat, fee_percentage: nat) -> int {
    price - fee_of(price, fee_percentage)
}

/// Whether the price covers its own fee, so that the seller's share is an amount.
pub open spec fn fee_covered(price: nat, fee_percentage: nat) -> bool {
    fee_of(price, fee_percentage) <= price
}

/// The fee on a price is the fee on its whole ten-thousands plus the fee on the rest.
proof fn lemma_fee_by_parts(price: nat, fee_percentage: nat)
    ensures
        fee_of(price, fee_percentage) == (price / 10000) * fee_percentage + ((price % 10000)
            * fee_percentage) / 10000,
{
    let q = (price / 10000) as int;
    let r = (price % 10000) as int;
    let f = fee_percentage as int;
    assert(price == 10000 * q + r) by (nonlinear_arith)
        requires
            q == price as int / 10000,
            r == price as int % 10000,
    ;
    assert(price * f == r * f + (q * f) * 10000) by (nonlinear_arith)
        requires
            price == 10000 * q + r,
    ;
    lemma_hoist_over_denominator(r * f, q * f, 10000);
}

/// At no more than a hundred percent the fee never exceeds the price.
pub proof fn lemma_fee_within_price(price: nat, fee_percentage: nat)
    requires
        fee_percentage <= 10000,
    ensures
        fee_covered(price, fee_percentage),
{
    assert(price * fee_percentage <= price * 10000) by (nonlinear_arith)
        requires
            fee_percentage <= 10000,
    ;
    lemma_div_is_ordered((price * fee_percentage) as int, (price * 10000) as int, 10000);
    assert((price * 10000) / 10000 == price) by (nonlinear_arith);
}

/// Splits `price` into the fee and the seller's amount, which add up to the price again.
/// There is no split where the fee would exceed the price.
pub fn split_price(price: u128, fee_percentage: u128) -> (split: Option<(u128, u128)>)
    ensures
        split is Some <==> fee_covered(price as nat, fee_percentage as nat),
        split matches Some((fee, seller_amount)) ==> {
            &&& fee == fee_of(price as nat, fee_percentage as nat)
            &&& seller_amount == seller_share(price as nat, fee_percentage as nat)
            &&& fee + seller_amount == price
        },
{
    let whole: u128 = price / BASIS_POINTS;
    let rest: u128 = price % BASIS_POINTS;
    proof {
        lemma_fee_by_parts(price as nat, fee_percentage as nat);
    }
    if rest > 0 && fee_percentage >= 2 * BASIS_POINTS {
        proof {
            assert(((rest as int) * (fee_percentage as int)) / 10000 >= 2 * rest) by {
                assert(rest * fee_percentage >= (2 * rest) * 10000) by (nonlinear_arith)
                    requires
                        fee_percentage >= 20000,
                        rest > 0,
                ;
                lemma_div_is_ordered(
                    ((2 * rest) * 10000) as int,
                    (rest * fee_percentage) as int,
                    10000,
                );
                assert(((2 * rest) * 10000) / 10000 == 2 * rest) by (nonlinear_arith);
            }
            assert(whole * fee_percentage >= whole * 10000) by (nonlinear_arith)
                requires
                    fee_percentage >= 20000,
            ;
        }
        return None;
    }
    let part: u128 = if rest == 0 {
        0
    } else {
        assert(rest * fee_percentage < 10000 * 20000) by (nonlinear_arith)
            requires
                rest < 10000,
                fee_percentage < 20000,
        ;
        rest * fee_percentage / BASIS_POINTS
    };
    assert(part == ((rest as int) * (fee_percentage as int)) / 10000) by {
        if rest == 0 {
            assert((rest as int) * (fee_percentage as int) == 0) by (nonlinear_arith)
                requires
                    rest == 0,
            ;
        }
    }
    match whole.checked_mul(fee_percentage) {
        None => None,
        Some(most) => match most.checked_add(part) {
            None => None,
            Some(fee) => if fee <= price {
                Some((fee, price - fee))
            } else {
                None
            },
        },
    }
}

} // verus!
