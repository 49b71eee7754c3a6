//! Which bits are finite numbers, and which scalars can be held.

use vstd::prelude::*;

use crate::scalars;
use crate::scalars::QueryScalarView;

verus! {

/// Bits are a finite number exactly when their exponent is not the largest
/// one, under either sign.
pub proof fn finite_numbers_have_no_largest_exponent(bits: u64)
    ensures
        scalars::finite_bits(bits) <==> bits < 0x7ff0_0000_0000_0000 || (0x8000_0000_0000_0000
            <= bits < 0xfff0_0000_0000_0000),
{
    assert((bits >> 52) & 0x7ff != 0x7ff <==> bits < 0x7ff0_0000_0000_0000u64 || (
    0x8000_0000_0000_0000u64 <= bits && bits < 0xfff0_0000_0000_0000u64)) by (bit_vector);
}

/// Both zeros are held as the same bits, and every other finite number as its
/// own; what is held is a finite number that is not the negative zero.
pub proof fn zeros_are_held_alike(bits: u64)
    ensures
        scalars::canonical_bits(0x8000_0000_0000_0000) == 0,
        scalars::canonical_bits(0) == 0,
        bits != 0x8000_0000_0000_0000 ==> scalars::canonical_bits(bits) == bits,
        scalars::canonical_float(bits) <==> scalars::finite_bits(bits) && bits
            != 0x8000_0000_0000_0000,
        scalars::finite_bits(bits) ==> scalars::canonical_float(scalars::canonical_bits(bits)),
{
    finite_numbers_have_no_largest_exponent(bits);
    finite_numbers_have_no_largest_exponent(0);
}

/// Values are ordered by their type, from null over boolean, signed, unsigned,
/// float, timestamp and text to bytes, before they are ordered by what they
/// hold.
pub proof fn types_are_ordered(left: QueryScalarView, right: QueryScalarView)
    ensures
        ({
            let place = |value: QueryScalarView| -> int
                {
                    match value {
                        QueryScalarView::Null => 0,
                        QueryScalarView::Boolean(_) => 1,
                        QueryScalarView::Signed(_) => 2,
                        QueryScalarView::Unsigned(_) => 3,
                        QueryScalarView::Float(_) => 4,
                        QueryScalarView::Timestamp(_) => 5,
                        QueryScalarView::String(_) => 6,
                        QueryScalarView::Bytes(_) => 7,
                    }
                };
            place(left) != place(right) ==> (left.less(right) <==> place(left) < place(right))
        }),
{
}

} // verus!
