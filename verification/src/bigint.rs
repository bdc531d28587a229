//! Arbitrary-precision magnitudes.
//!
//! The deep-zoom layer works on unsigned arbitrary-precision magnitudes,
//! carried as little-endian byte vectors whose mathematical value is
//! `mag_val`. The arithmetic itself is delegated to `dashu`'s `UBig` through
//! thin trusted wrappers; each wrapper's contract states the exact integer
//! result, so everything built on top is reasoned about precisely.

use vstd::arithmetic::power2::pow2;
use vstd::prelude::*;

verus! {

/// The integer a little-endian byte string denotes.
pub open spec fn mag_val(s: Seq<u8>) -> nat
    decreases s.len(),
{
    if s.len() == 0 {
        0
    } else {
        (s[0] as nat) + 256 * mag_val(s.subrange(1, s.len() as int))
    }
}

/// Relies on `dashu::integer::UBig`: `from_le_bytes` + `Add` + `to_le_bytes`
/// compute the exact sum of the two magnitudes.
#[verifier::external_body]
pub fn mag_add(a: &Vec<u8>, b: &Vec<u8>) -> (r: Vec<u8>)
    ensures
        mag_val(r@) == mag_val(a@) + mag_val(b@),
{
    let x = dashu::integer::UBig::from_le_bytes(a) + dashu::integer::UBig::from_le_bytes(b);
    x.to_le_bytes().into_vec()
}

/// Relies on `dashu::integer::UBig`: `Sub` computes the exact difference and
/// panics only when it would be negative, which the precondition rules out.
#[verifier::external_body]
pub fn mag_sub(a: &Vec<u8>, b: &Vec<u8>) -> (r: Vec<u8>)
    requires
        mag_val(b@) <= mag_val(a@),
    ensures
        mag_val(r@) == mag_val(a@) - mag_val(b@),
{
    let x = dashu::integer::UBig::from_le_bytes(a) - dashu::integer::UBig::from_le_bytes(b);
    x.to_le_bytes().into_vec()
}

/// Relies on `dashu::integer::UBig`: `Mul` computes the exact product.
#[verifier::external_body]
pub fn mag_mul(a: &Vec<u8>, b: &Vec<u8>) -> (r: Vec<u8>)
    ensures
        mag_val(r@) == mag_val(a@) * mag_val(b@),
{
    let x = dashu::integer::UBig::from_le_bytes(a) * dashu::integer::UBig::from_le_bytes(b);
    x.to_le_bytes().into_vec()
}

/// Relies on `dashu::integer::UBig`: `Div` computes the quotient rounded
/// toward zero (which on unsigned values is the floor), panicking only on a
/// zero divisor, which the precondition rules out.
#[verifier::external_body]
pub fn mag_div(a: &Vec<u8>, b: &Vec<u8>) -> (r: Vec<u8>)
    requires
        mag_val(b@) > 0,
    ensures
        mag_val(r@) == mag_val(a@) / mag_val(b@),
{
    let x = dashu::integer::UBig::from_le_bytes(a) / dashu::integer::UBig::from_le_bytes(b);
    x.to_le_bytes().into_vec()
}

/// Relies on `dashu::integer::UBig`: `Shl` multiplies by two to the shift.
#[verifier::external_body]
pub fn mag_shl(a: &Vec<u8>, k: usize) -> (r: Vec<u8>)
    ensures
        mag_val(r@) == mag_val(a@) * pow2(k as nat),
{
    let x = dashu::integer::UBig::from_le_bytes(a) << k;
    x.to_le_bytes().into_vec()
}

/// Relies on `dashu::integer::UBig`: `Shr` divides by two to the shift,
/// rounding down.
#[verifier::external_body]
pub fn mag_shr(a: &Vec<u8>, k: usize) -> (r: Vec<u8>)
    ensures
        mag_val(r@) == mag_val(a@) / pow2(k as nat),
{
    let x = dashu::integer::UBig::from_le_bytes(a) >> k;
    x.to_le_bytes().into_vec()
}

/// Relies on `dashu::integer::UBig`: `Ord::lt` is the numerical order of the
/// magnitudes.
#[verifier::external_body]
pub fn mag_lt(a: &Vec<u8>, b: &Vec<u8>) -> (r: bool)
    ensures
        r == (mag_val(a@) < mag_val(b@)),
{
    dashu::integer::UBig::from_le_bytes(a) < dashu::integer::UBig::from_le_bytes(b)
}

/// Relies on `dashu::integer::UBig`: `From<u128>` builds the magnitude with
/// that exact value.
#[verifier::external_body]
pub fn mag_from_u128(v: u128) -> (r: Vec<u8>)
    ensures
        mag_val(r@) == v,
{
    dashu::integer::UBig::from(v).to_le_bytes().into_vec()
}

/// Relies on `dashu::integer::UBig`: `TryFrom<UBig> for u128` returns the
/// exact value when it fits and an error exactly when it does not.
#[verifier::external_body]
pub fn mag_to_u128_sat(a: &Vec<u8>) -> (r: u128)
    ensures
        mag_val(a@) <= u128::MAX ==> r == mag_val(a@),
        mag_val(a@) > u128::MAX ==> r == u128::MAX,
{
    match u128::try_from(dashu::integer::UBig::from_le_bytes(a)) {
        Ok(v) => v,
        Err(_) => u128::MAX,
    }
}

} // verus!
