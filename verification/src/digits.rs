//! Decimal rendering of 32-bit integers, used by the identity codec.

use vstd::prelude::*;
use vstd::string::StringExecFns;

verus! {

/// The character for one decimal digit value.
pub open spec fn digit_char(d: int) -> char {
    if d == 0 {
        '0'
    } else if d == 1 {
        '1'
    } else if d == 2 {
        '2'
    } else if d == 3 {
        '3'
    } else if d == 4 {
        '4'
    } else if d == 5 {
        '5'
    } else if d == 6 {
        '6'
    } else if d == 7 {
        '7'
    } else if d == 8 {
        '8'
    } else {
        '9'
    }
}

/// Decimal digits of a nonnegative integer, most significant first.
pub open spec fn dec_digits(n: int) -> Seq<char>
    decreases n,
{
    if n < 10 {
        seq![digit_char(n)]
    } else {
        dec_digits(n / 10) + seq![digit_char(n % 10)]
    }
}

/// Decimal representation of an integer, with a leading '-' when negative.
pub open spec fn int_chars(n: int) -> Seq<char> {
    if n < 0 {
        seq!['-'] + dec_digits(-n)
    } else {
        dec_digits(n)
    }
}

/// Whether a character is one of the ten decimal digits.
pub open spec fn is_digit(c: char) -> bool {
    c == '0' || c == '1' || c == '2' || c == '3' || c == '4' || c == '5' || c == '6' || c == '7'
        || c == '8' || c == '9'
}

pub proof fn lemma_dec_digits_are_digits(n: int)
    requires
        n >= 0,
    ensures
        dec_digits(n).len() >= 1,
        forall|i: int| 0 <= i < dec_digits(n).len() ==> is_digit(#[trigger] dec_digits(n)[i]),
    decreases n,
{
    if n < 10 {
    } else {
        lemma_dec_digits_are_digits(n / 10);
    }
}

/// The decimal rendering of an integer never contains the characters of the
/// `": "` separator that the codec splits labels on.
pub proof fn lemma_int_chars_no_sep(n: int)
    ensures
        int_chars(n).len() >= 1,
        forall|i: int| 0 <= i < int_chars(n).len() ==> #[trigger] int_chars(n)[i] != ':',
        forall|i: int| 0 <= i < int_chars(n).len() ==> #[trigger] int_chars(n)[i] != ' ',
{
    if n < 0 {
        lemma_dec_digits_are_digits(-n);
        assert forall|i: int| 0 <= i < int_chars(n).len() implies #[trigger] int_chars(n)[i] != ':'
            && int_chars(n)[i] != ' ' by {
            if i > 0 {
                assert(int_chars(n)[i] == dec_digits(-n)[i - 1]);
            }
        }
    } else {
        lemma_dec_digits_are_digits(n);
    }
}

/// A one-digit rendering comes from the digit itself.
proof fn lemma_dec_digits_single(n: int, c: char)
    requires
        n >= 0,
        dec_digits(n) == seq![c],
    ensures
        n < 10 && c == digit_char(n),
{
    if n >= 10 {
        lemma_dec_digits_are_digits(n / 10);
        assert(dec_digits(n).len() >= 2);
        assert(seq![c].len() == 1);
    } else {
        assert(dec_digits(n)[0] == c);
    }
}

/// Only `-1` renders as the sentinel label `-1`.
pub proof fn lemma_int_chars_dash_one(n: int)
    requires
        int_chars(n) == seq!['-', '1'],
    ensures
        n == -1,
{
    if n >= 0 {
        lemma_dec_digits_are_digits(n);
        assert(int_chars(n)[0] == '-');
        assert(is_digit('-'));
        assert(false);
    } else {
        let d = dec_digits(-n);
        assert(seq!['-'] + d == seq!['-', '1']);
        assert(d.len() == 1);
        assert(d[0] == (seq!['-'] + d)[1]);
        assert(d =~= seq!['1']);
        lemma_dec_digits_single(-n, '1');
        assert(digit_char(-n) == '1');
        if -n != 1 {
            assert(false);
        }
    }
}

/// One decimal digit as a string slice.
fn digit_str(d: u32) -> (r: &'static str)
    requires
        d < 10,
    ensures
        r@ == seq![digit_char(d as int)],
{
    if d == 0 {
        proof {
            reveal_strlit("0");
            assert(("0")@ =~= seq![digit_char(0)]);
        }
        "0"
    } else if d == 1 {
        proof {
            reveal_strlit("1");
            assert(("1")@ =~= seq![digit_char(1)]);
        }
        "1"
    } else if d == 2 {
        proof {
            reveal_strlit("2");
            assert(("2")@ =~= seq![digit_char(2)]);
        }
        "2"
    } else if d == 3 {
        proof {
            reveal_strlit("3");
            assert(("3")@ =~= seq![digit_char(3)]);
        }
        "3"
    } else if d == 4 {
        proof {
            reveal_strlit("4");
            assert(("4")@ =~= seq![digit_char(4)]);
        }
        "4"
    } else if d == 5 {
        proof {
            reveal_strlit("5");
            assert(("5")@ =~= seq![digit_char(5)]);
        }
        "5"
    } else if d == 6 {
        proof {
            reveal_strlit("6");
            assert(("6")@ =~= seq![digit_char(6)]);
        }
        "6"
    } else if d == 7 {
        proof {
            reveal_strlit("7");
            assert(("7")@ =~= seq![digit_char(7)]);
        }
        "7"
    } else if d == 8 {
        proof {
            reveal_strlit("8");
            assert(("8")@ =~= seq![digit_char(8)]);
        }
        "8"
    } else {
        proof {
            reveal_strlit("9");
            assert(("9")@ =~= seq![digit_char(9)]);
        }
        "9"
    }
}

/// Decimal rendering of an unsigned 32-bit integer.
fn u32_string(n: u32) -> (r: String)
    ensures
        r@ == dec_digits(n as int),
    decreases n,
{
    if n < 10 {
        String::from_str(digit_str(n))
    } else {
        let mut s = u32_string(n / 10);
        s.append(digit_str(n % 10));
        proof {
            assert(s@ =~= dec_digits(n as int));
        }
        s
    }
}

/// Decimal rendering of a signed 32-bit integer, as `i32::to_string` writes it.
pub fn i32_string(n: i32) -> (r: String)
    ensures
        r@ == int_chars(n as int),
{
    if n >= 0 {
        u32_string(n as u32)
    } else {
        let m: u32 = (-(n as i64)) as u32;
        let mut s = String::from_str("-");
        proof {
            reveal_strlit("-");
            assert(s@ =~= seq!['-']);
        }
        let rest = u32_string(m);
        s.append(rest.as_str());
        proof {
            assert(s@ =~= int_chars(n as int));
        }
        s
    }
}

} // verus!
