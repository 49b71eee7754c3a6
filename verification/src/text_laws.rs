//! How numbers and bytes stand in diagnostic texts.

use vstd::prelude::*;

use crate::text;

verus! {

/// The number that decimal digits stand for.
pub open spec fn number_of(digits: Seq<u8>) -> int
    decreases digits.len(),
{
    if digits.len() == 0 {
        0
    } else {
        10 * number_of(digits.drop_last()) + (digits.last() - '0' as u8)
    }
}

/// A number stands as the decimal digits of it, without zeros in front.
pub proof fn decimals_stand_for_their_number(n: nat)
    ensures
        number_of(text::decimal(n)) == n,
        text::decimal(n).len() > 0,
        forall|i: int|
            0 <= i < text::decimal(n).len() ==> '0' as u8 <= #[trigger] text::decimal(n)[i]
                <= '9' as u8,
        n > 0 ==> text::decimal(n)[0] != '0' as u8,
        n == 0 ==> text::decimal(n).len() == 1,
    decreases n,
{
    let digits = text::decimal(n);
    if n < 10 {
        assert(digits.drop_last() =~= Seq::empty());
        assert(number_of(digits.drop_last()) == 0);
    } else {
        decimals_stand_for_their_number(n / 10);
        assert(digits.drop_last() =~= text::decimal(n / 10));
        assert(digits[0] == text::decimal(n / 10)[0]);
        assert forall|i: int| 0 <= i < digits.len() implies '0' as u8 <= #[trigger] digits[i]
            <= '9' as u8 by {
            if i < digits.len() - 1 {
                assert(digits[i] == text::decimal(n / 10)[i]);
            }
        }
    }
}

/// A negative number stands as a minus sign and its magnitude.
pub proof fn negative_decimals_have_a_sign(n: int)
    ensures
        n < 0 ==> text::signed_decimal(n)[0] == '-' as u8 && number_of(
            text::signed_decimal(n).skip(1),
        ) == -n,
        n >= 0 ==> number_of(text::signed_decimal(n)) == n,
{
    if n < 0 {
        decimals_stand_for_their_number((-n) as nat);
        assert(text::signed_decimal(n).skip(1) =~= text::decimal((-n) as nat));
    } else {
        decimals_stand_for_their_number(n as nat);
    }
}

/// The value of a hexadecimal digit in lower case.
pub open spec fn digit_value(digit: u8) -> int {
    if '0' as u8 <= digit <= '9' as u8 {
        digit - '0' as u8
    } else {
        digit - 'a' as u8 + 10
    }
}

/// A byte stands as two hexadecimal digits in lower case, the greater first.
pub proof fn bytes_stand_as_two_digits(value: u8)
    ensures
        text::hex_pair(value).len() == 2,
        forall|i: int|
            0 <= i < 2 ==> {
                ||| '0' as u8 <= #[trigger] text::hex_pair(value)[i] <= '9' as u8
                ||| 'a' as u8 <= text::hex_pair(value)[i] <= 'f' as u8
            },
        16 * digit_value(text::hex_pair(value)[0]) + digit_value(text::hex_pair(value)[1]) == value,
{
}

} // verus!
