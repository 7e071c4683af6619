//! Numbers in text: how whole numbers are written and how they are read back.

use vstd::prelude::*;
use vstd::string::*;

verus! {

/// Whether `c` is one of the ten ASCII digits.
pub open spec fn is_digit(c: char) -> bool {
    '0' <= c <= '9'
}

/// The number that an ASCII digit stands for.
pub open spec fn digit_value(c: char) -> nat {
    (c as int - '0' as int) as nat
}

/// Whether `s` is one ASCII digit or more, and nothing else.
pub open spec fn all_digits(s: Seq<char>) -> bool {
    s.len() > 0 && forall|i: int| 0 <= i < s.len() ==> is_digit(#[trigger] s[i])
}

/// The number that a row of digits stands for, in base ten.
pub open spec fn digits_value(s: Seq<char>) -> nat
    decreases s.len(),
{
    if s.len() == 0 {
        0
    } else {
        digits_value(s.drop_last()) * 10 + digit_value(s.last())
    }
}

/// The number written in `s` as digits that a `+` may precede.
pub open spec fn unsigned_literal(s: Seq<char>) -> Option<nat> {
    let digits = if s.len() > 0 && s[0] == '+' {
        s.drop_first()
    } else {
        s
    };
    if all_digits(digits) {
        Some(digits_value(digits))
    } else {
        None
    }
}

/// The number written in `s` as digits that a `+` or a `-` may precede.
pub open spec fn signed_literal(s: Seq<char>) -> Option<int> {
    if s.len() > 0 && s[0] == '-' {
        if all_digits(s.drop_first()) {
            Some(-(digits_value(s.drop_first()) as int))
        } else {
            None
        }
    } else {
        match unsigned_literal(s) {
            Some(n) => Some(n as int),
            None => None,
        }
    }
}

/// The number written in `s`, where it is at most `max`.
pub open spec fn unsigned_up_to(s: Seq<char>, max: nat) -> Option<nat> {
    match unsigned_literal(s) {
        Some(n) => if n <= max {
            Some(n)
        } else {
            None
        },
        None => None,
    }
}

/// The ASCII digit for a number below ten.
pub open spec fn digit_char(n: nat) -> char {
    ('0' as int + n) as char
}

/// `n` in base ten, without leading zeros.
pub open spec fn decimal(n: nat) -> Seq<char>
    decreases n,
{
    if n < 10 {
        seq![digit_char(n)]
    } else {
        decimal(n / 10).push(digit_char(n % 10))
    }
}

/// `n` in base ten, with a `-` in front of a negative one.
pub open spec fn signed_decimal(n: int) -> Seq<char> {
    if n < 0 {
        seq!['-'] + decimal((-n) as nat)
    } else {
        decimal(n as nat)
    }
}

/// The lower-case hexadecimal digit for a number below sixteen.
pub open spec fn hex_char(n: nat) -> char {
    if n < 10 {
        digit_char(n)
    } else {
        ('a' as int + n - 10) as char
    }
}

/// The last `width` hexadecimal digits of `n`, leading zeros included.
pub open spec fn hex(n: nat, width: nat) -> Seq<char>
    decreases width,
{
    if width == 0 {
        Seq::empty()
    } else {
        hex(n / 16, (width - 1) as nat).push(hex_char(n % 16))
    }
}

/// A number in base ten reads back as itself.
pub proof fn law_decimal_reads_back(n: nat)
    ensures
        all_digits(decimal(n)),
        digits_value(decimal(n)) == n,
        unsigned_literal(decimal(n)) == Some(n),
    decreases n,
{
    if n < 10 {
        assert(decimal(n).drop_last() == Seq::<char>::empty());
        assert(decimal(n).last() == digit_char(n));
        assert(digits_value(Seq::<char>::empty()) == 0);
    } else {
        law_decimal_reads_back(n / 10);
        let d = decimal(n);
        assert(d.drop_last() == decimal(n / 10));
        assert(d.last() == digit_char(n % 10));
        assert forall|i: int| 0 <= i < d.len() implies is_digit(#[trigger] d[i]) by {
            if i < d.len() - 1 {
                assert(d[i] == decimal(n / 10)[i]);
            }
        }
    }
    assert(is_digit(decimal(n)[0]));
}

/// A negative number too reads back as itself.
pub proof fn law_signed_decimal_reads_back(n: int)
    ensures
        signed_literal(signed_decimal(n)) == Some(n),
{
    if n < 0 {
        law_decimal_reads_back((-n) as nat);
        assert(signed_decimal(n).drop_first() == decimal((-n) as nat));
    } else {
        law_decimal_reads_back(n as nat);
        assert(is_digit(decimal(n as nat)[0]));
    }
}

/// The message of the error with which `usize::from_str` refuses `s`, where
/// the largest `usize` is `max`.
pub uninterp spec fn usize_error_text(s: Seq<char>, max: nat) -> Seq<char>;

/// `usize::from_str`: reads digits that a `+` may precede and refuses
/// everything else, and numbers that are too large. Of the message that the
/// error displays nothing is claimed but that `s` and the range of `usize`
/// determine it.
#[verifier::external_body]
pub(crate) fn parse_usize(s: &str) -> (number: Result<usize, String>)
    ensures
        match number {
            Ok(n) => unsigned_up_to(s@, usize::MAX as nat) == Some(n as nat),
            Err(message) => {
                &&& unsigned_up_to(s@, usize::MAX as nat) is None
                &&& message@ == usize_error_text(s@, usize::MAX as nat)
            },
        },
{
    s.parse::<usize>().map_err(|e| e.to_string())
}

/// The message of the error with which `u16::from_str` refuses `s`.
pub uninterp spec fn u16_error_text(s: Seq<char>) -> Seq<char>;

/// `u16::from_str`: reads digits that a `+` may precede and refuses
/// everything else, and numbers that are too large. Of the message that the
/// error displays nothing is claimed but that `s` determines it.
#[verifier::external_body]
pub(crate) fn parse_u16(s: &str) -> (number: Result<u16, String>)
    ensures
        match number {
            Ok(n) => unsigned_up_to(s@, u16::MAX as nat) == Some(n as nat),
            Err(message) => {
                &&& unsigned_up_to(s@, u16::MAX as nat) is None
                &&& message@ == u16_error_text(s@)
            },
        },
{
    s.parse::<u16>().map_err(|e| e.to_string())
}

/// `i32::from_str`: reads digits that a `+` or a `-` may precede and refuses
/// everything else, and numbers out of range.
#[verifier::external_body]
pub(crate) fn parse_i32(s: &str) -> (number: Option<i32>)
    ensures
        match number {
            Some(n) => signed_literal(s@) == Some(n as int),
            None => match signed_literal(s@) {
                Some(n) => n < i32::MIN || n > i32::MAX,
                None => true,
            },
        },
{
    s.parse::<i32>().ok()
}

/// The ASCII digit for `n`.
fn digit_of(n: u8) -> (c: char)
    requires
        n < 10,
    ensures
        c == digit_char(n as nat),
{
    ('0' as u8 + n) as char
}

/// `n` in base ten.
pub fn to_decimal(n: u64) -> (text: String)
    ensures
        text@ == decimal(n as nat),
    decreases n,
{
    if n < 10 {
        let mut text = String::new();
        text.push(digit_of(n as u8));
        assert(text@ == decimal(n as nat));
        text
    } else {
        let mut text = to_decimal(n / 10);
        text.push(digit_of((n % 10) as u8));
        text
    }
}

/// `n` in base ten, with its sign.
pub fn to_signed_decimal(n: i64) -> (text: String)
    ensures
        text@ == signed_decimal(n as int),
{
    if n < 0 {
        let mut text = String::new();
        text.push('-');
        let digits = to_decimal((-(n + 1)) as u64 + 1);
        text.append(digits.as_str());
        assert(text@ == signed_decimal(n as int));
        text
    } else {
        to_decimal(n as u64)
    }
}

/// `n` as sixteen hexadecimal digits.
pub fn to_hex16(n: u64) -> (text: String)
    ensures
        text@ == hex(n as nat, 16),
{
    to_hex(n, 16)
}

fn to_hex(n: u64, width: u8) -> (text: String)
    ensures
        text@ == hex(n as nat, width as nat),
    decreases width,
{
    if width == 0 {
        String::new()
    } else {
        let mut text = to_hex(n / 16, width - 1);
        let d: u8 = (n % 16) as u8;
        if d < 10 {
            text.push(digit_of(d));
        } else {
            text.push(('a' as u8 + (d - 10)) as char);
        }
        text
    }
}

/// A number in base ten is written in one way only: in the digits `0` to `9`,
/// the highest first, and without a zero in front.
pub proof fn law_decimal_is_plain(n: nat)
    ensures
        decimal(n).len() > 0,
        forall|i: int| 0 <= i < decimal(n).len() ==> '0' <= #[trigger] decimal(n)[i] <= '9',
        decimal(n)[0] == '0' <==> n == 0,
        n < 10 <==> decimal(n).len() == 1,
        decimal(n).last() as int == '0' as int + n % 10,
        n >= 10 ==> decimal(n).drop_last() == decimal(n / 10),
    decreases n,
{
    law_decimal_reads_back(n);
    assert forall|i: int| 0 <= i < decimal(n).len() implies '0' <= #[trigger] decimal(n)[i]
        <= '9' by {
        assert(is_digit(decimal(n)[i]));
    }
    if n >= 10 {
        law_decimal_is_plain(n / 10);
        assert(decimal(n).drop_last() == decimal(n / 10));
        assert(decimal(n)[0] == decimal(n / 10)[0]);
    }
}

/// A number with its sign: a `-` and the digits of its size where it is
/// negative, else its digits alone.
pub proof fn law_sign_comes_first(n: int)
    ensures
        n < 0 ==> signed_decimal(n)[0] == '-' && signed_decimal(n).drop_first() == decimal(
            (-n) as nat,
        ),
        n >= 0 ==> signed_decimal(n) == decimal(n as nat),
{
    if n < 0 {
        assert(signed_decimal(n).drop_first() == decimal((-n) as nat));
    }
}

/// Hexadecimal digits: as many as asked for, the lowest last, in small
/// letters.
pub proof fn law_hex_is_plain(n: nat, width: nat)
    ensures
        hex(n, width).len() == width,
        width > 0 ==> hex(n, width).drop_last() == hex(n / 16, (width - 1) as nat),
        width > 0 && n % 16 < 10 ==> hex(n, width).last() as int == '0' as int + n % 16,
        width > 0 && n % 16 >= 10 ==> hex(n, width).last() as int == 'a' as int + (n % 16 - 10),
    decreases width,
{
    if width > 0 {
        law_hex_is_plain(n / 16, (width - 1) as nat);
        assert(hex(n, width).drop_last() == hex(n / 16, (width - 1) as nat));
    }
}

/// What is read as a number: digits, which a `+` may precede, stand for the
/// number that they spell, and nothing else does.
pub proof fn law_what_reads_as_a_number(s: Seq<char>, n: nat)
    ensures
        unsigned_literal(decimal(n)) == Some(n),
        unsigned_literal(seq!['+'] + decimal(n)) == Some(n),
        signed_literal(seq!['-'] + decimal(n)) == Some(-(n as int)),
        s.len() == 0 ==> unsigned_literal(s) is None,
        unsigned_literal(s) is Some ==> forall|i: int|
            0 <= i < s.len() ==> '0' <= #[trigger] s[i] <= '9' || i == 0 && s[i] == '+',
{
    law_decimal_reads_back(n);
    let plus = seq!['+'] + decimal(n);
    let minus = seq!['-'] + decimal(n);
    assert(plus.drop_first() == decimal(n));
    assert(minus.drop_first() == decimal(n));
    assert(is_digit(decimal(n)[0]));
    if unsigned_literal(s) is Some {
        assert forall|i: int| 0 <= i < s.len() implies '0' <= #[trigger] s[i] <= '9' || i == 0
            && s[i] == '+' by {
            if s[0] == '+' {
                if i > 0 {
                    assert(is_digit(s.drop_first()[i - 1]));
                }
            } else {
                assert(is_digit(s[i]));
            }
        }
    }
}

} // verus!
