//! Metric values as IEEE-754 double-precision bit patterns.
//!
//! A metric value is carried as the 64 bits of its `f64` encoding. This
//! module defines the standard sign-magnitude total order on those encodings:
//! on ordinary (non-NaN) values it coincides with the usual numeric order,
//! it places negative zero just below positive zero, and it puts the two
//! infinity encodings at the ends of the numeric range. Minimum and maximum
//! under this order are what the series store uses for its running extrema.

use vstd::prelude::*;

verus! {

/// Bit pattern of positive infinity, the sentinel a fresh running minimum
/// starts from.
pub const INF_BITS: u64 = 0x7FF0_0000_0000_0000;

/// Bit pattern of negative infinity, the sentinel a fresh running maximum
/// starts from.
pub const NEG_INF_BITS: u64 = 0xFFF0_0000_0000_0000;

/// The sign bit of a double-precision encoding; on its own it is the bit
/// pattern of negative zero.
pub const SIGN_BIT: u64 = 0x8000_0000_0000_0000;

/// Bit pattern of 1.0, the largest admissible smoothing factor.
pub const ONE_BITS: u64 = 0x3FF0_0000_0000_0000;

/// Monotone injection from double-precision encodings into the integers:
/// nonnegative encodings keep their order above all negative ones, and
/// negative encodings (sign bit set) are reversed, so that the numeric order
/// of the encoded values is the integer order of their keys.
pub open spec fn order_key(b: u64) -> int {
    if b >= SIGN_BIT {
        u64::MAX - b
    } else {
        b + SIGN_BIT
    }
}

/// The sign-magnitude total order on value encodings.
pub open spec fn val_le(a: u64, b: u64) -> bool {
    order_key(a) <= order_key(b)
}

/// The smaller of two value encodings under the sign-magnitude order.
pub open spec fn spec_val_min(a: u64, b: u64) -> u64 {
    if val_le(a, b) {
        a
    } else {
        b
    }
}

/// The larger of two value encodings under the sign-magnitude order.
pub open spec fn spec_val_max(a: u64, b: u64) -> u64 {
    if val_le(a, b) {
        b
    } else {
        a
    }
}

/// A smoothing factor is admissible when the value it encodes lies in the
/// closed interval from zero to one; both encodings of zero are admitted.
pub open spec fn spec_valid_ema_bits(b: u64) -> bool {
    b == SIGN_BIT || b <= ONE_BITS
}

fn order_key_exec(b: u64) -> (k: u64)
    ensures
        k as int == order_key(b),
{
    if b >= SIGN_BIT {
        u64::MAX - b
    } else {
        b + SIGN_BIT
    }
}

/// Compares two value encodings in the sign-magnitude order.
pub fn val_le_exec(a: u64, b: u64) -> (r: bool)
    ensures
        r == val_le(a, b),
{
    order_key_exec(a) <= order_key_exec(b)
}

/// Returns the smaller of two value encodings in the sign-magnitude order.
pub fn val_min(a: u64, b: u64) -> (r: u64)
    ensures
        r == spec_val_min(a, b),
{
    if val_le_exec(a, b) {
        a
    } else {
        b
    }
}

/// Returns the larger of two value encodings in the sign-magnitude order.
pub fn val_max(a: u64, b: u64) -> (r: u64)
    ensures
        r == spec_val_max(a, b),
{
    if val_le_exec(a, b) {
        b
    } else {
        a
    }
}

/// Decides whether an encoding is an admissible smoothing factor: the encoded
/// value lies between zero and one inclusive. Every encoding above `ONE_BITS`
/// on the nonnegative side (infinity and NaN included) is rejected, as is
/// every negative encoding other than negative zero.
pub fn valid_ema_bits(b: u64) -> (r: bool)
    ensures
        r == spec_valid_ema_bits(b),
{
    b == SIGN_BIT || b <= ONE_BITS
}

/// The sign-magnitude order is total: reflexive, transitive, antisymmetric,
/// and any two encodings are comparable.
pub proof fn lemma_val_le_total_order(a: u64, b: u64, c: u64)
    ensures
        val_le(a, a),
        val_le(a, b) && val_le(b, c) ==> val_le(a, c),
        val_le(a, b) && val_le(b, a) ==> a == b,
        val_le(a, b) || val_le(b, a),
{
}

/// The minimum and maximum operators bound their arguments on both sides
/// under the sign-magnitude order.
pub proof fn lemma_val_min_max_bounds(a: u64, b: u64)
    ensures
        val_le(spec_val_min(a, b), a),
        val_le(spec_val_min(a, b), b),
        val_le(a, spec_val_max(a, b)),
        val_le(b, spec_val_max(a, b)),
{
}

} // verus!
