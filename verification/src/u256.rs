use vstd::prelude::*;
use sp_core::U256;
use crate::table::StoreKey;

verus! {

/// `sp_core::U256`, the 256-bit unsigned integer of the bridge's amounts and token ids.
#[verifier::external_type_specification]
#[verifier::external_body]
pub struct ExU256(U256);

/// The 32 bytes that `U256::to_big_endian` returns for `x`.
pub uninterp spec fn u256_be_bytes(x: U256) -> Seq<u8>;

/// The number that a big-endian byte string stands for.
pub open spec fn be_value(s: Seq<u8>) -> nat
    decreases s.len(),
{
    if s.len() == 0 {
        0
    } else {
        be_value(s.drop_last()) * 256 + s.last() as nat
    }
}

/// The number that a `U256` holds, read from its big-endian bytes.
pub open spec fn u256_value(x: U256) -> nat {
    be_value(u256_be_bytes(x))
}

/// `U256::MAX`, the largest value of the type.
pub open spec fn u256_max() -> nat {
    0xffff_ffff_ffff_ffff_ffff_ffff_ffff_ffff_ffff_ffff_ffff_ffff_ffff_ffff_ffff_ffffnat
}

/// Calls `U256::to_big_endian`, which writes the four 64-bit limbs of `x`, most
/// significant first, each in big-endian order.
#[verifier::external_body]
pub fn u256_to_big_endian(x: &U256) -> (r: [u8; 32])
    ensures
        r@ == u256_be_bytes(*x),
{
    x.to_big_endian()
}

/// Calls `PartialEq::eq` of `U256`, derived on its limbs: true exactly when the two
/// values are the same.
#[verifier::external_body]
pub fn u256_eq(a: &U256, b: &U256) -> (r: bool)
    ensures
        r == (*a == *b),
{
    *a == *b
}

/// Calls `U256::zero`.
#[verifier::external_body]
pub fn u256_zero() -> (r: U256)
    ensures
        u256_value(r) == 0,
{
    U256::zero()
}

/// Calls `U256::one`.
#[verifier::external_body]
pub fn u256_one() -> (r: U256)
    ensures
        u256_value(r) == 1,
{
    U256::one()
}

/// Calls `U256::from(u128)`, which puts the low and the high 64 bits of `v` in the
/// two lowest limbs.
#[verifier::external_body]
pub fn u256_from_u128(v: u128) -> (r: U256)
    ensures
        u256_value(r) == v,
{
    U256::from(v)
}

/// Calls `U256::saturating_add`: the sum, or `U256::MAX` where the sum overflows.
#[verifier::external_body]
pub fn u256_saturating_add(a: U256, b: U256) -> (r: U256)
    ensures
        u256_value(r) == if u256_value(a) + u256_value(b) > u256_max() {
            u256_max()
        } else {
            u256_value(a) + u256_value(b)
        },
{
    a.saturating_add(b)
}

/// Calls `U256::saturating_sub`: the difference, or zero where it would be negative.
#[verifier::external_body]
pub fn u256_saturating_sub(a: U256, b: U256) -> (r: U256)
    ensures
        u256_value(r) == if u256_value(a) >= u256_value(b) {
            u256_value(a) - u256_value(b)
        } else {
            0
        },
{
    a.saturating_sub(b)
}

/// Token ids are told apart by their value.
impl StoreKey for U256 {
    type Model = U256;

    open spec fn model(&self) -> U256 {
        *self
    }

    fn same_key(&self, other: &Self) -> (r: bool) {
        u256_eq(self, other)
    }
}

} // verus!
