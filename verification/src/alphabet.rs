//! The four character classes and their fixed alphabets.
//!
//! Each alphabet is a string constant. Contracts speak of an alphabet through the
//! view of its constant; the lemmas of this module say what those views hold.

use vstd::prelude::*;

verus! {

/// The upper-case letters, `A` to `Z`.
pub const UPPER_CASE: &'static str = "ABCDEFGHIJKLMNOPQRSTUVWXYZ";

/// The lower-case letters, `a` to `z`.
pub const LOWER_CASE: &'static str = "abcdefghijklmnopqrstuvwxyz";

/// The decimal digits, `0` to `9`.
pub const DIGITS: &'static str = "0123456789";

/// The printable ASCII symbols: neither a letter, nor a digit, nor the space.
pub const SPECIAL: &'static str = "!\"#$%&'()*+,-./:;<=>?@[\\]^_`{|}~";

/// `c` is one of `A` to `Z`.
pub open spec fn is_upper_case(c: char) -> bool {
    'A' <= c <= 'Z'
}

/// `c` is one of `a` to `z`.
pub open spec fn is_lower_case(c: char) -> bool {
    'a' <= c <= 'z'
}

/// `c` is one of `0` to `9`.
pub open spec fn is_digit(c: char) -> bool {
    '0' <= c <= '9'
}

/// `c` is a printable ASCII character other than a letter, a digit and the space.
pub open spec fn is_special(c: char) -> bool {
    '!' <= c <= '~' && !is_upper_case(c) && !is_lower_case(c) && !is_digit(c)
}

/// `UPPER_CASE` lists the 26 upper-case letters in ascending order, and no other character.
pub proof fn lemma_upper_case()
    ensures
        UPPER_CASE@.len() == 26,
        forall|i: int| 0 <= i < 26 ==> #[trigger] UPPER_CASE@[i] as int == 'A' as int + i,
        forall|c: char| UPPER_CASE@.contains(c) <==> is_upper_case(c),
{
    reveal_strlit("ABCDEFGHIJKLMNOPQRSTUVWXYZ");
    assert forall|c: char| is_upper_case(c) implies UPPER_CASE@.contains(c) by {
        assert(UPPER_CASE@[c as int - 'A' as int] == c);
    }
}

/// `LOWER_CASE` lists the 26 lower-case letters in ascending order, and no other character.
pub proof fn lemma_lower_case()
    ensures
        LOWER_CASE@.len() == 26,
        forall|i: int| 0 <= i < 26 ==> #[trigger] LOWER_CASE@[i] as int == 'a' as int + i,
        forall|c: char| LOWER_CASE@.contains(c) <==> is_lower_case(c),
{
    reveal_strlit("abcdefghijklmnopqrstuvwxyz");
    assert forall|c: char| is_lower_case(c) implies LOWER_CASE@.contains(c) by {
        assert(LOWER_CASE@[c as int - 'a' as int] == c);
    }
}

/// `DIGITS` lists the ten decimal digits in ascending order, and no other character.
pub proof fn lemma_digits()
    ensures
        DIGITS@.len() == 10,
        forall|i: int| 0 <= i < 10 ==> #[trigger] DIGITS@[i] as int == '0' as int + i,
        forall|c: char| DIGITS@.contains(c) <==> is_digit(c),
{
    reveal_strlit("0123456789");
    assert forall|c: char| is_digit(c) implies DIGITS@.contains(c) by {
        assert(DIGITS@[c as int - '0' as int] == c);
    }
}

/// Where the symbol `c` stands in `SPECIAL`, which lists its symbols in ascending order.
spec fn special_position(c: char) -> int {
    if c <= '/' {
        c as int - '!' as int
    } else if c <= '@' {
        c as int - ':' as int + 15
    } else if c <= '`' {
        c as int - '[' as int + 22
    } else {
        c as int - '{' as int + 28
    }
}

/// `SPECIAL` lists the 32 printable ASCII characters that are neither a letter, nor a
/// digit, nor the space, and no other character.
pub proof fn lemma_special()
    ensures
        SPECIAL@.len() == 32,
        forall|i: int| 0 <= i < 32 ==> is_special(#[trigger] SPECIAL@[i]),
        forall|c: char| SPECIAL@.contains(c) <==> is_special(c),
{
    reveal_strlit("!\"#$%&'()*+,-./:;<=>?@[\\]^_`{|}~");
    assert forall|c: char| is_special(c) implies SPECIAL@.contains(c) by {
        let at = special_position(c);
        assert(0 <= at < 32);
        assert(SPECIAL@[at] as int == c as int);
    }
}

} // verus!
