//! 256-bit intermediate arithmetic, borrowed from `primitive_types::U256`.
//!
//! Nothing in this module is proved: each function hands one operation to the
//! outside crate and states what that operation is documented to return. The
//! value of a `U256` is read off its public word array, so the statements are
//! about ordinary natural numbers.

use primitive_types::U256;
use vstd::prelude::*;

verus! {

/// `primitive_types::U256`, made known to the verifier together with its one
/// public field, the array of four 64-bit words.
#[verifier::external_type_specification]
pub struct ExU256(U256);

/// Two to the power 64: the weight of the second word.
pub open spec fn word() -> nat {
    0x1_0000_0000_0000_0000nat
}

/// One more than the largest value a `U256` can hold: two to the power 256.
pub open spec fn u256_limit() -> nat {
    0x1_0000_0000_0000_0000_0000_0000_0000_0000_0000_0000_0000_0000_0000_0000_0000_0000nat
}

/// The number that a `U256` stands for: its four words, least significant first.
pub open spec fn u256_value(x: U256) -> nat {
    (x.0[0] as nat) + (x.0[1] as nat) * word() + (x.0[2] as nat) * word() * word()
        + (x.0[3] as nat) * word() * word() * word()
}

/// `U256::from(u128)`: the wide integer with the same value. The conversion
/// fills the two low words from the argument and zeroes the two high ones.
#[verifier::external_body]
pub(crate) fn widen(x: u128) -> (r: U256)
    ensures
        u256_value(r) == x,
{
    U256::from(x)
}

/// `U256 * U256`: the product. The outside operator panics when the product
/// does not fit in 256 bits, so such operands are excluded.
#[verifier::external_body]
pub(crate) fn wide_mul(a: U256, b: U256) -> (r: U256)
    requires
        u256_value(a) * u256_value(b) < u256_limit(),
    ensures
        u256_value(r) == u256_value(a) * u256_value(b),
{
    a * b
}

/// `U256 / U256`: the quotient, rounded down. The outside operator panics on
/// a zero divisor, so that divisor is excluded.
#[verifier::external_body]
pub(crate) fn wide_div(a: U256, b: U256) -> (r: U256)
    requires
        u256_value(b) != 0,
    ensures
        u256_value(r) == u256_value(a) / u256_value(b),
{
    a / b
}

/// `u128::try_from(U256)`: the same value as a `u128` when the two high words
/// are zero, and nothing otherwise.
#[verifier::external_body]
pub(crate) fn narrow(x: U256) -> (r: Option<u128>)
    ensures
        r == (if u256_value(x) <= u128::MAX {
            Some(u256_value(x) as u128)
        } else {
            None
        }),
{
    u128::try_from(x).ok()
}

} // verus!
