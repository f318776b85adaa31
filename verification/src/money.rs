//! Money arithmetic. Every amount of currency in this crate is a `u64`
//! number of minor units; unit prices are `u32` minor units per unit of
//! material, so the value of a single trade leg always fits in a `u64`.

use vstd::prelude::*;

verus! {

/// Addition on balances that stops at the largest representable amount.
pub open spec fn sat_add_u64(a: u64, b: u64) -> u64 {
    if a + b > u64::MAX {
        u64::MAX
    } else {
        (a + b) as u64
    }
}

/// Subtraction on balances that stops at zero.
pub open spec fn sat_sub_u64(a: u64, b: u64) -> u64 {
    if b > a {
        0u64
    } else {
        (a - b) as u64
    }
}

/// Addition of a non-negative mathematical amount to a balance, stopping at
/// the largest representable amount.
pub open spec fn sat_add_u64_int(a: u64, b: int) -> u64 {
    if a + b > u64::MAX {
        u64::MAX
    } else {
        (a + b) as u64
    }
}

/// Subtraction of a non-negative mathematical amount from a balance,
/// stopping at zero.
pub open spec fn sat_sub_u64_int(a: u64, b: int) -> u64 {
    if b > a {
        0u64
    } else {
        (a - b) as u64
    }
}

/// The currency value of `quantity` units at `price` minor units each.
pub open spec fn value_spec(quantity: u32, price: u32) -> int {
    quantity * price
}

/// Computes the value of a trade leg; the product of two 32-bit numbers
/// always fits in 64 bits.
pub fn leg_value(quantity: u32, price: u32) -> (v: u64)
    ensures
        v == value_spec(quantity, price),
{
    proof {
        assert((quantity as int) * (price as int) <= u64::MAX) by (nonlinear_arith)
            requires
                quantity <= u32::MAX,
                price <= u32::MAX,
        ;
    }
    (quantity as u64) * (price as u64)
}

} // verus!
