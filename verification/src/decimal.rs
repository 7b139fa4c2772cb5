//! Decimal notation of natural numbers.

use vstd::prelude::*;
use vstd::string::*;
use crate::alphabet::{lemma_digits, DIGITS};

verus! {

/// The character that denotes the digit `d`, for `d` from 0 to 9.
pub open spec fn digit(d: nat) -> char {
    ('0' as nat + d) as char
}

/// The decimal notation of `n`: most significant digit first, no leading zero,
/// and the single digit `0` for zero.
pub open spec fn decimal(n: nat) -> Seq<char>
    decreases n,
{
    if n < 10 {
        seq![digit(n)]
    } else {
        decimal(n / 10).push(digit(n % 10))
    }
}

/// Appends the decimal notation of `n` to `text`.
pub(crate) fn push_decimal(text: &mut String, n: usize)
    ensures
        final(text)@ == old(text)@ + decimal(n as nat),
    decreases n,
{
    if n >= 10 {
        push_decimal(text, n / 10);
    }
    let d: usize = n % 10;
    proof {
        lemma_digits();
        assert(DIGITS@.subrange(d as int, d + 1) =~= seq![digit(d as nat)]);
    }
    text.append(DIGITS.substring_ascii(d, d + 1));
}

} // verus!
