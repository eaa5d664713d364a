//! Decimal numbers as text: writing them, with or without leading zeros, and reading them.

use vstd::prelude::*;
use crate::text::chars_of;

verus! {

/// The character of a decimal digit.
pub open spec fn digit_char(d: int) -> char {
    (('0' as int) + d) as char
}

/// The value of a decimal digit.
pub open spec fn digit_value(c: char) -> int {
    (c as int) - ('0' as int)
}

pub open spec fn is_digit(c: char) -> bool {
    '0' <= c <= '9'
}

/// The decimal digits of `n`, without leading zeros.
pub open spec fn decimal(n: nat) -> Seq<char>
    decreases n,
{
    if n < 10 {
        seq![digit_char(n as int)]
    } else {
        decimal(n / 10).push(digit_char((n % 10) as int))
    }
}

/// The decimal digits of `n`, with as many zeros before them as make up `width` characters.
pub open spec fn padded(n: nat, width: nat) -> Seq<char> {
    let digits = decimal(n);
    if digits.len() < width {
        Seq::new((width - digits.len()) as nat, |i: int| '0') + digits
    } else {
        digits
    }
}

/// The number that a sequence of decimal digits writes.
pub open spec fn value(s: Seq<char>) -> int
    decreases s.len(),
{
    if s.len() == 0 {
        0
    } else {
        value(s.drop_last()) * 10 + digit_value(s.last())
    }
}

pub open spec fn all_digits(s: Seq<char>) -> bool {
    forall|i: int| 0 <= i < s.len() ==> is_digit(#[trigger] s[i])
}

/// What an unsigned number in decimal says: an optional plus sign, then one digit or more.
pub open spec fn unsigned_number(s: Seq<char>) -> Option<int> {
    let body = if s.len() > 0 && s[0] == '+' {
        s.skip(1)
    } else {
        s
    };
    if body.len() > 0 && all_digits(body) {
        Some(value(body))
    } else {
        None
    }
}

/// What a signed number in decimal says: an optional sign, then one digit or more.
pub open spec fn signed_number(s: Seq<char>) -> Option<int> {
    if s.len() > 0 && s[0] == '-' {
        if s.len() > 1 && all_digits(s.skip(1)) {
            Some(-value(s.skip(1)))
        } else {
            None
        }
    } else {
        unsigned_number(s)
    }
}

/// `n` where it lies between `low` and `high`.
pub open spec fn within(n: Option<int>, low: int, high: int) -> Option<int> {
    match n {
        Some(v) => if low <= v <= high {
            Some(v)
        } else {
            None
        },
        None => None,
    }
}

/// Reading the digits of a number gives the number back.
pub proof fn lemma_decimal_value(n: nat)
    ensures
        value(decimal(n)) == n,
        decimal(n).len() >= 1,
        all_digits(decimal(n)),
    decreases n,
{
    if n < 10 {
        reveal_with_fuel(value, 2);
        assert(decimal(n).drop_last() == Seq::<char>::empty());
    } else {
        lemma_decimal_value(n / 10);
        assert(decimal(n).drop_last() == decimal(n / 10));
    }
}

/// A number below a power of ten has no more digits than that power has zeros.
pub proof fn lemma_decimal_length(n: nat, width: nat)
    requires
        width >= 1,
        n < vstd::arithmetic::power::pow(10, width),
    ensures
        decimal(n).len() <= width,
    decreases width,
{
    reveal(vstd::arithmetic::power::pow);
    if n >= 10 {
        if width == 1 {
            assert(vstd::arithmetic::power::pow(10, 0) == 1);
        } else {
            lemma_decimal_length(n / 10, (width - 1) as nat);
        }
    }
}

/// Leading zeros do not change the value of a sequence of digits.
proof fn lemma_leading_zeros(s: Seq<char>, k: nat)
    ensures
        value(Seq::new(k, |i: int| '0') + s) == value(s),
    decreases k + s.len(),
{
    let zeros = Seq::new(k, |i: int| '0');
    let t = zeros + s;
    if s.len() > 0 {
        assert(t.drop_last() == zeros + s.drop_last());
        lemma_leading_zeros(s.drop_last(), k);
    } else if k > 0 {
        let fewer = Seq::new((k - 1) as nat, |i: int| '0');
        assert(t.drop_last() == fewer + s);
        lemma_leading_zeros(s, (k - 1) as nat);
    } else {
        assert(t == s);
    }
}

/// Reading a padded number gives the number back, and padding fills the width exactly where
/// the number has no more digits than that.
pub proof fn lemma_padded(n: nat, width: nat)
    ensures
        value(padded(n, width)) == n,
        all_digits(padded(n, width)),
        padded(n, width).len() >= width,
        width >= 1 && n < vstd::arithmetic::power::pow(10, width) ==> padded(n, width).len()
            == width,
{
    lemma_decimal_value(n);
    let digits = decimal(n);
    if digits.len() < width {
        lemma_leading_zeros(digits, (width - digits.len()) as nat);
    }
    if width >= 1 && n < vstd::arithmetic::power::pow(10, width) {
        lemma_decimal_length(n, width);
    }
}

/// The text of a digit.
fn digit_text(d: u64) -> (r: &'static str)
    requires
        d < 10,
    ensures
        r@ == seq![digit_char(d as int)],
{
    proof {
        reveal_strlit("0");
        reveal_strlit("1");
        reveal_strlit("2");
        reveal_strlit("3");
        reveal_strlit("4");
        reveal_strlit("5");
        reveal_strlit("6");
        reveal_strlit("7");
        reveal_strlit("8");
        reveal_strlit("9");
    }
    match d {
        0 => "0",
        1 => "1",
        2 => "2",
        3 => "3",
        4 => "4",
        5 => "5",
        6 => "6",
        7 => "7",
        8 => "8",
        _ => "9",
    }
}

/// The decimal digits of `n`, without leading zeros.
pub fn decimal_text(n: u64) -> (r: String)
    ensures
        r@ == decimal(n as nat),
    decreases n,
{
    if n < 10 {
        digit_text(n).to_string()
    } else {
        let mut out: String = decimal_text(n / 10);
        out.append(digit_text(n % 10));
        out
    }
}

/// The decimal digits of `n`, with leading zeros up to `width` characters.
pub fn padded_text(n: u64, width: usize) -> (r: String)
    ensures
        r@ == padded(n as nat, width as nat),
{
    let digits: String = decimal_text(n);
    let length: usize = digits.as_str().unicode_len();
    let mut out: String = String::new();
    let mut filled: usize = length;
    while filled < width
        invariant
            length <= filled,
            filled <= width || filled == length,
            out@ == Seq::new((filled - length) as nat, |i: int| '0'),
        decreases width - filled,
    {
        proof {
            reveal_strlit("0");
        }
        out.append("0");
        filled = filled + 1;
        assert(out@ == Seq::new((filled - length) as nat, |i: int| '0'));
    }
    out.append(digits.as_str());
    assert(out@ == padded(n as nat, width as nat));
    out
}

/// A longer sequence of digits writes no smaller a number.
proof fn lemma_value_grows(s: Seq<char>, k: int)
    requires
        all_digits(s),
        0 <= k <= s.len(),
    ensures
        value(s) >= value(s.take(k)) >= 0,
    decreases s.len(),
{
    if k < s.len() {
        lemma_value_grows(s.drop_last(), k);
        assert(s.drop_last().take(k) == s.take(k));
    } else {
        assert(s.take(k) == s);
        if k > 0 {
            lemma_value_grows(s.drop_last(), k - 1);
        }
    }
}

/// An unsigned number is not negative.
proof fn lemma_unsigned_number(s: Seq<char>)
    ensures
        unsigned_number(s) matches Some(n) ==> n >= 0,
{
    let body = if s.len() > 0 && s[0] == '+' {
        s.skip(1)
    } else {
        s
    };
    if all_digits(body) {
        lemma_value_grows(body, 0);
        assert(body.take(0) == Seq::<char>::empty());
    }
}

/// The number that the digits from `from` on write, where there is one and it fits.
fn parse_digits(chars: &Vec<char>, from: usize) -> (r: Option<u64>)
    requires
        from <= chars.len(),
    ensures
        r matches Some(v) ==> from < chars.len() && all_digits(chars@.skip(from as int)) && value(
            chars@.skip(from as int),
        ) == v,
        r is None ==> from == chars.len() || !all_digits(chars@.skip(from as int)) || value(
            chars@.skip(from as int),
        ) > u64::MAX,
{
    if from == chars.len() {
        return None;
    }
    let ghost body = chars@.skip(from as int);
    let mut total: u64 = 0;
    let mut i: usize = from;
    while i < chars.len()
        invariant
            from <= i <= chars.len(),
            body == chars@.skip(from as int),
            all_digits(body.take(i - from)),
            total == value(body.take(i - from)),
        decreases chars.len() - i,
    {
        let c: char = chars[i];
        assert(c == body[i - from]);
        if c < '0' || c > '9' {
            return None;
        }
        let d: u64 = ((c as u32) - 48) as u64;
        assert(body.take(i - from + 1).drop_last() == body.take(i - from));
        assert(value(body.take(i - from + 1)) == total * 10 + d);
        if total > (u64::MAX - d) / 10 {
            proof {
                if all_digits(body) {
                    lemma_value_grows(body, i - from + 1);
                }
            }
            return None;
        }
        total = total * 10 + d;
        i = i + 1;
    }
    assert(body.take(i - from) == body);
    Some(total)
}

/// The unsigned number that `s` writes, where it writes one that fits 64 bits.
pub fn parse_u64(s: &str) -> (r: Option<u64>)
    ensures
        r is Some <==> within(unsigned_number(s@), 0, u64::MAX as int) is Some,
        r matches Some(v) ==> unsigned_number(s@) == Some(v as int),
{
    let chars: Vec<char> = chars_of(s);
    let from: usize = if chars.len() > 0 && chars[0] == '+' {
        1
    } else {
        0
    };
    proof {
        assert(s@.skip(0) == s@);
        lemma_unsigned_number(s@);
    }
    parse_digits(&chars, from)
}

/// The unsigned number that `s` writes, where it writes one that fits 32 bits.
pub fn parse_u32(s: &str) -> (r: Option<u32>)
    ensures
        r is Some <==> within(unsigned_number(s@), 0, u32::MAX as int) is Some,
        r matches Some(v) ==> unsigned_number(s@) == Some(v as int),
{
    match parse_u64(s) {
        Some(v) => if v <= u32::MAX as u64 {
            Some(v as u32)
        } else {
            None
        },
        None => None,
    }
}

/// The signed number that `s` writes, where it writes one that fits 32 bits.
pub fn parse_i32(s: &str) -> (r: Option<i32>)
    ensures
        r is Some <==> within(signed_number(s@), i32::MIN as int, i32::MAX as int) is Some,
        r matches Some(v) ==> signed_number(s@) == Some(v as int),
{
    let chars: Vec<char> = chars_of(s);
    if chars.len() > 0 && chars[0] == '-' {
        proof {
            let body = s@.skip(1);
            if all_digits(body) {
                lemma_value_grows(body, body.len() as int);
            }
        }
        match parse_digits(&chars, 1) {
            Some(v) => if v <= 2147483648 {
                Some((-(v as i64)) as i32)
            } else {
                None
            },
            None => None,
        }
    } else {
        proof {
            lemma_unsigned_number(s@);
        }
        match parse_u64(s) {
            Some(v) => if v <= i32::MAX as u64 {
                Some(v as i32)
            } else {
                None
            },
            None => None,
        }
    }
}

/// Each digit behind a number multiplies it by ten and adds its own value.
pub proof fn law_digits_are_positional(s: Seq<char>, c: char)
    ensures
        value(Seq::<char>::empty()) == 0,
        value(s.push(c)) == 10 * value(s) + (c as int - '0' as int),
{
    assert(s.push(c).drop_last() == s);
}

/// The decimal digits of a number write that number, they are digits only, and none is a zero that
/// could be left out.
pub proof fn law_decimal_is_the_shortest(n: nat)
    ensures
        value(decimal(n)) == n,
        forall|i: int| 0 <= i < decimal(n).len() ==> '0' <= #[trigger] decimal(n)[i] <= '9',
        decimal(n).len() >= 1,
        decimal(n).len() > 1 ==> decimal(n)[0] != '0',
    decreases n,
{
    lemma_decimal_value(n);
    assert forall|i: int| 0 <= i < decimal(n).len() implies '0' <= #[trigger] decimal(n)[i]
        <= '9' by {
        assert(is_digit(decimal(n)[i]));
    }
    if n >= 10 {
        law_decimal_is_the_shortest(n / 10);
        lemma_decimal_value(n / 10);
        if decimal(n / 10).len() == 1 {
            reveal_with_fuel(value, 2);
            assert(decimal(n / 10).drop_last() == Seq::<char>::empty());
        }
    }
}

/// Padding puts zeros before the digits of a number, as many as are missing from the width.
pub proof fn law_padding_adds_leading_zeros(n: nat, width: nat)
    ensures
        decimal(n).is_suffix_of(padded(n, width)),
        padded(n, width).len() == if decimal(n).len() < width {
            width
        } else {
            decimal(n).len()
        },
        forall|i: int|
            0 <= i < padded(n, width).len() - decimal(n).len() ==> #[trigger] padded(n, width)[i]
                == '0',
{
}

/// Digits are read as the number that they write, with a sign before them or without; only a
/// signed number takes a minus sign.
pub proof fn law_digits_are_read_with_their_sign(digits: Seq<char>)
    requires
        digits.len() > 0,
        forall|i: int| 0 <= i < digits.len() ==> '0' <= #[trigger] digits[i] <= '9',
    ensures
        unsigned_number(digits) == Some(value(digits)),
        unsigned_number(seq!['+'] + digits) == Some(value(digits)),
        unsigned_number(seq!['-'] + digits) is None,
        signed_number(digits) == Some(value(digits)),
        signed_number(seq!['+'] + digits) == Some(value(digits)),
        signed_number(seq!['-'] + digits) == Some(-value(digits)),
{
    assert forall|i: int| 0 <= i < digits.len() implies is_digit(#[trigger] digits[i]) by {}
    assert((seq!['+'] + digits).skip(1) == digits);
    assert((seq!['-'] + digits).skip(1) == digits);
    assert(digits[0] != '+' && digits[0] != '-');
    let minus = seq!['-'] + digits;
    assert(minus[0] == '-');
    assert(!is_digit(minus[0]));
}

/// Nothing else is a number: not the empty text, not a sign alone, and no text with another
/// character than a digit behind its first.
pub proof fn law_other_texts_are_no_numbers(s: Seq<char>)
    requires
        ({
            ||| s.len() == 0
            ||| s.len() == 1 && !('0' <= s[0] <= '9')
            ||| !('0' <= s[0] <= '9') && s[0] != '+' && s[0] != '-'
            ||| exists|i: int| 1 <= i < s.len() && !('0' <= #[trigger] s[i] <= '9')
        }),
    ensures
        unsigned_number(s) is None,
        signed_number(s) is None,
{
    if s.len() > 1 && ('0' <= s[0] <= '9' || s[0] == '+' || s[0] == '-') {
        let i = choose|i: int| 1 <= i < s.len() && !('0' <= #[trigger] s[i] <= '9');
        assert(!is_digit(s[i]));
        assert(s.skip(1)[i - 1] == s[i]);
        assert(!is_digit(s.skip(1)[i - 1]));
        assert(!all_digits(s));
        assert(!all_digits(s.skip(1)));
    } else if s.len() > 0 {
        assert(!is_digit(s[0]));
    }
}

/// A number within bounds stays, and one outside them is none.
pub proof fn law_bounds_only_exclude(n: int, low: int, high: int)
    ensures
        low <= n <= high ==> within(Some(n), low, high) == Some(n),
        n < low || high < n ==> within(Some(n), low, high) is None,
        within(None, low, high) is None,
{
}

} // verus!
