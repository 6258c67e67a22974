//! Transactions and the order of their weights.
//!
//! A weight is an IEEE 754 single-precision number, held as its 32-bit
//! pattern. The functions here order such patterns as the numbers they encode,
//! in integer arithmetic alone.

use vstd::prelude::*;

verus! {

/// The sign bit of a weight's bit pattern.
pub const SIGN_BIT: u32 = 0x8000_0000;

/// The bit pattern of positive infinity. A pattern whose magnitude is larger
/// encodes no number (NaN).
pub const INFINITY_BITS: u32 = 0x7f80_0000;

/// The bit pattern with its sign bit cleared.
pub open spec fn weight_magnitude(bits: u32) -> int {
    if bits >= SIGN_BIT {
        bits - SIGN_BIT
    } else {
        bits as int
    }
}

/// Whether the bit pattern encodes no number, so that it cannot be ordered.
pub open spec fn weight_is_nan(bits: u32) -> bool {
    weight_magnitude(bits) > INFINITY_BITS
}

/// An integer that orders bit patterns as the numbers they encode: for two
/// patterns that are numbers, the first number is less than or equal to the
/// second exactly when its rank is. Both zeros have rank 0.
pub open spec fn weight_rank(bits: u32) -> int {
    if bits >= SIGN_BIT {
        -weight_magnitude(bits)
    } else {
        weight_magnitude(bits)
    }
}

/// A unit of pending work: a text payload and a priority weight.
#[derive(Debug, Clone, PartialEq, Eq)]
pub struct Transaction {
    /// The message payload.
    pub data: String,
    /// The weight, as the bit pattern of a single-precision number.
    pub weight_bits: u32,
}

impl Transaction {
    /// Builds a transaction from its payload and the bit pattern of its weight.
    pub fn new(data: String, weight_bits: u32) -> (transaction: Transaction)
        ensures
            transaction.data == data,
            transaction.weight_bits == weight_bits,
    {
        Transaction { data, weight_bits }
    }

    /// The rank of this transaction's weight.
    pub open spec fn rank(&self) -> int {
        weight_rank(self.weight_bits)
    }

    /// Whether the weight is a number, so that the pool can order it.
    pub open spec fn is_orderable(&self) -> bool {
        !weight_is_nan(self.weight_bits)
    }

    /// Tells whether the weight is a number. Only such a transaction may be
    /// scheduled.
    pub fn has_orderable_weight(&self) -> (orderable: bool)
        ensures
            orderable == self.is_orderable(),
    {
        weight_order_key(self.weight_bits).is_some()
    }
}

/// Computes the rank of a weight's bit pattern, or `None` for a NaN.
pub fn weight_order_key(bits: u32) -> (key: Option<i64>)
    ensures
        weight_is_nan(bits) <==> key is None,
        key matches Some(k) ==> k == weight_rank(bits),
{
    let negative: bool = bits >= SIGN_BIT;
    let magnitude: u32 = if negative {
        bits - SIGN_BIT
    } else {
        bits
    };
    if magnitude > INFINITY_BITS {
        None
    } else if negative {
        Some(-(magnitude as i64))
    } else {
        Some(magnitude as i64)
    }
}

} // verus!
