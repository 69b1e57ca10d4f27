//! Decimal and hexadecimal numbers as text.

use vstd::arithmetic::power;
use vstd::prelude::*;

verus! {

/// Whether `c` is an ASCII digit.
pub open spec fn is_digit(c: char) -> bool {
    '0' <= c <= '9'
}

/// The value of an ASCII digit.
pub open spec fn digit_value(c: char) -> nat {
    (c as nat - '0' as nat) as nat
}

/// Whether `s` consists of ASCII digits.
pub open spec fn all_digits(s: Seq<char>) -> bool {
    forall|i: int| 0 <= i < s.len() ==> is_digit(#[trigger] s[i])
}

/// The number that a run of digits denotes.
pub open spec fn number(s: Seq<char>) -> nat
    decreases s.len(),
{
    if s.len() == 0 {
        0
    } else {
        number(s.drop_last()) * 10 + digit_value(s.last())
    }
}

/// `s` without one leading plus sign.
pub open spec fn unsigned_part(s: Seq<char>) -> Seq<char> {
    if s.len() > 0 && s.first() == '+' {
        s.drop_first()
    } else {
        s
    }
}

/// The number that `s` denotes: an optional plus sign and at least one digit,
/// with a value of at most `max`.
pub open spec fn parsed(s: Seq<char>, max: nat) -> Option<nat> {
    let digits = unsigned_part(s);
    if digits.len() > 0 && all_digits(digits) && number(digits) <= max {
        Some(number(digits))
    } else {
        None
    }
}

/// The longest prefix of `s` that consists of ASCII digits.
pub open spec fn leading_digits(s: Seq<char>) -> Seq<char>
    decreases s.len(),
{
    if s.len() > 0 && is_digit(s.first()) {
        seq![s.first()] + leading_digits(s.drop_first())
    } else {
        Seq::empty()
    }
}

/// The digit of value `d` in a base of at most sixteen.
pub open spec fn digit(d: nat) -> char {
    if d < 10 {
        ('0' as nat + d) as char
    } else {
        ('a' as nat + (d - 10)) as char
    }
}

/// The decimal notation of `n`.
pub open spec fn decimal(n: nat) -> Seq<char>
    decreases n,
{
    if n < 10 {
        seq![digit(n)]
    } else {
        decimal(n / 10).push(digit(n % 10))
    }
}

/// The last `width` hexadecimal digits of `n`.
pub open spec fn hex_digits(n: nat, width: nat) -> Seq<char>
    decreases width,
{
    if width == 0 {
        Seq::empty()
    } else {
        hex_digits(n / 16, (width - 1) as nat).push(digit(n % 16))
    }
}

/// A longer run of digits denotes at least as much as any of its prefixes.
proof fn lemma_number_grows(s: Seq<char>, k: int)
    requires
        0 <= k <= s.len(),
    ensures
        number(s.take(k)) <= number(s),
    decreases s.len() - k,
{
    if k < s.len() {
        lemma_number_grows(s, k + 1);
        assert(s.take(k + 1).drop_last() == s.take(k));
    } else {
        assert(s.take(k) == s);
    }
}

/// Reads a run of digits with a value of at most `max`.
fn read_digits(chars: &Vec<char>, from: usize, max: u64) -> (value: Option<u64>)
    requires
        from <= chars@.len(),
    ensures
        match value {
            Some(v) => all_digits(chars@.skip(from as int)) && number(chars@.skip(from as int)) == v
                && v <= max,
            None => !(all_digits(chars@.skip(from as int)) && number(chars@.skip(from as int))
                <= max),
        },
{
    let ghost all = chars@.skip(from as int);
    let mut value: u64 = 0;
    let mut i: usize = from;
    while i < chars.len()
        invariant
            from <= i <= chars@.len(),
            all == chars@.skip(from as int),
            all_digits(all.take(i - from)),
            number(all.take(i - from)) == value,
            value <= max,
        decreases chars@.len() - i,
    {
        let c = chars[i];
        let ghost k = i - from;
        assert(all[k] == c);
        if !('0' <= c && c <= '9') {
            assert(!is_digit(all[k]));
            return None;
        }
        let d: u64 = (c as u8 - '0' as u8) as u64;
        proof {
            assert(all.take(k + 1).drop_last() == all.take(k));
            lemma_number_grows(all, k + 1);
            assert(number(all.take(k + 1)) == value * 10 + d);
        }
        if value > (u64::MAX - d) / 10 || value * 10 + d > max {
            return None;
        }
        value = value * 10 + d;
        assert forall|j: int| 0 <= j < k + 1 implies is_digit(#[trigger] all.take(k + 1)[j]) by {
            if j < k {
                assert(all.take(k)[j] == all[j]);
            }
        }
        i = i + 1;
    }
    assert(all.take(all.len() as int) == all);
    Some(value)
}

/// Reads an unsigned number of at most `max`.
pub fn parse_unsigned(s: &str, max: u64) -> (value: Option<u64>)
    ensures
        match value {
            Some(v) => parsed(s@, max as nat) == Some(v as nat),
            None => parsed(s@, max as nat) is None,
        },
{
    let chars = crate::text::strings::chars_of(s);
    let from: usize = if chars.len() > 0 && chars[0] == '+' {
        1
    } else {
        0
    };
    assert(chars@.skip(from as int) =~= unsigned_part(s@));
    if from == chars.len() {
        return None;
    }
    read_digits(&chars, from, max)
}

/// Reads a `u32`.
pub fn parse_u32(s: &str) -> (value: Option<u32>)
    ensures
        match value {
            Some(v) => parsed(s@, u32::MAX as nat) == Some(v as nat),
            None => parsed(s@, u32::MAX as nat) is None,
        },
{
    match parse_unsigned(s, u32::MAX as u64) {
        Some(v) => Some(v as u32),
        None => None,
    }
}

/// Reads a `u16`.
pub fn parse_u16(s: &str) -> (value: Option<u16>)
    ensures
        match value {
            Some(v) => parsed(s@, u16::MAX as nat) == Some(v as nat),
            None => parsed(s@, u16::MAX as nat) is None,
        },
{
    match parse_unsigned(s, u16::MAX as u64) {
        Some(v) => Some(v as u16),
        None => None,
    }
}

/// The 32-bit number that `s` denotes, or `default`.
pub open spec fn number_or(s: Seq<char>, default: nat) -> nat {
    match parsed(s, u32::MAX as nat) {
        Some(value) => value,
        None => default,
    }
}

/// Reads a `u32`, or falls back on `default`.
pub fn u32_or(s: &str, default: u32) -> (value: u32)
    ensures
        value == number_or(s@, default as nat),
{
    match parse_u32(s) {
        Some(value) => value,
        None => default,
    }
}

/// The digit of value `d`.
pub fn digit_char(d: u8) -> (c: char)
    requires
        d < 16,
    ensures
        c == digit(d as nat),
{
    if d < 10 {
        ('0' as u8 + d) as char
    } else {
        ('a' as u8 + (d - 10)) as char
    }
}

/// Writes `n` in decimal.
pub fn to_decimal(n: u64) -> (s: String)
    ensures
        s@ == decimal(n as nat),
    decreases n,
{
    if n < 10 {
        let mut s = String::new();
        s.push(digit_char(n as u8));
        assert(s@ =~= seq![digit(n as nat)]);
        s
    } else {
        let mut s = to_decimal(n / 10);
        s.push(digit_char((n % 10) as u8));
        s
    }
}

/// Writes the last `width` hexadecimal digits of `n`.
pub fn to_hex(n: u64, width: u8) -> (s: String)
    ensures
        s@ == hex_digits(n as nat, width as nat),
    decreases width,
{
    if width == 0 {
        String::new()
    } else {
        let mut s = to_hex(n / 16, width - 1);
        s.push(digit_char((n % 16) as u8));
        s
    }
}

/// The decimal notation of a number has at least one digit, only digits, and
/// denotes that number.
pub proof fn lemma_decimal(n: nat)
    ensures
        decimal(n).len() >= 1,
        all_digits(decimal(n)),
        number(decimal(n)) == n,
    decreases n,
{
    if n < 10 {
        assert(decimal(n).drop_last() =~= Seq::<char>::empty());
        assert(number(decimal(n).drop_last()) == 0);
    } else {
        lemma_decimal(n / 10);
        assert(decimal(n).drop_last() =~= decimal(n / 10));
        let d = decimal(n);
        assert forall|i: int| 0 <= i < d.len() implies is_digit(#[trigger] d[i]) by {
            if i < d.len() - 1 {
                assert(d[i] == decimal(n / 10)[i]);
            }
        }
    }
}

/// A number below a power of ten has no more digits than the exponent.
proof fn lemma_decimal_len(n: nat, digits: nat)
    requires
        digits > 0,
        n < power::pow(10, digits),
    ensures
        decimal(n).len() <= digits,
    decreases digits,
{
    if n >= 10 {
        assert(power::pow(10, digits) == 10 * power::pow(10, (digits - 1) as nat)) by {
            reveal(power::pow);
        }
        if digits == 1 {
            assert(power::pow(10, 0) == 1) by {
                reveal(power::pow);
            }
        }
        lemma_decimal_len(n / 10, (digits - 1) as nat);
    }
}

/// Counts the decimal digits of `n`, of which there are at most twenty.
pub fn decimal_len(n: u64) -> (len: usize)
    ensures
        len == decimal(n as nat).len(),
        len <= 20,
{
    proof {
        reveal_with_fuel(power::pow, 21);
        lemma_decimal_len(n as nat, 20);
    }
    to_decimal(n).as_str().unicode_len()
}

/// Reading a number back from its decimal notation gives the number, whenever
/// it is in range.
pub proof fn decimal_round_trips(n: nat, max: nat)
    ensures
        parsed(decimal(n), max) == (if n <= max {
            Some(n)
        } else {
            None::<nat>
        }),
{
    lemma_decimal(n);
    assert(is_digit(decimal(n)[0]));
    assert(unsigned_part(decimal(n)) == decimal(n));
}

/// A fixed number of hexadecimal digits has that length.
pub proof fn lemma_hex_len(n: nat, width: nat)
    ensures
        hex_digits(n, width).len() == width,
    decreases width,
{
    if width > 0 {
        lemma_hex_len(n / 16, (width - 1) as nat);
    }
}

/// Sixteen hexadecimal digits tell any two 64-bit numbers apart.
pub proof fn hex_digits_tell_apart(a: u64, b: u64)
    requires
        hex_digits(a as nat, 16) == hex_digits(b as nat, 16),
    ensures
        a == b,
{
    reveal_with_fuel(power::pow, 17);
    lemma_hex_injective(a as nat, b as nat, 16);
}

proof fn lemma_hex_injective(a: nat, b: nat, width: nat)
    requires
        hex_digits(a, width) == hex_digits(b, width),
        a < power::pow(16, width),
        b < power::pow(16, width),
    ensures
        a == b,
    decreases width,
{
    reveal(power::pow);
    if width > 0 {
        let x = hex_digits(a, width);
        let y = hex_digits(b, width);
        assert(x.drop_last() =~= hex_digits(a / 16, (width - 1) as nat));
        assert(y.drop_last() =~= hex_digits(b / 16, (width - 1) as nat));
        assert(x.last() == digit(a % 16) && y.last() == digit(b % 16));
        assert(a % 16 == b % 16);
        assert(power::pow(16, width) == 16 * power::pow(16, (width - 1) as nat));
        lemma_hex_injective(a / 16, b / 16, (width - 1) as nat);
    }
}

/// A number is read digit by digit: one more digit makes it ten times as large
/// and adds the digit, as long as that is in range; a leading plus sign changes
/// nothing.
pub proof fn digits_add_up(s: Seq<char>, n: nat, d: nat, max: nat)
    requires
        d < 10,
        parsed(s, max) == Some(n),
    ensures
        n <= max,
        parsed(s.push(digit(d)), max) == (if n * 10 + d <= max {
            Some(n * 10 + d)
        } else {
            None::<nat>
        }),
        s.first() != '+' ==> parsed(seq!['+'] + s, max) == Some(n),
        parsed(seq![digit(d)], max) == (if d <= max {
            Some(d)
        } else {
            None::<nat>
        }),
{
    let digits = unsigned_part(s);
    let longer = s.push(digit(d));
    assert(unsigned_part(longer) =~= digits.push(digit(d)));
    assert(digits.push(digit(d)).drop_last() =~= digits);
    assert forall|i: int| 0 <= i < digits.len() + 1 implies is_digit(
        #[trigger] digits.push(digit(d))[i],
    ) by {
        if i < digits.len() {
            assert(is_digit(digits[i]));
        }
    }
    assert((seq!['+'] + s).drop_first() =~= s);
    let one = seq![digit(d)];
    assert(one.drop_last() =~= Seq::<char>::empty());
    assert(number(one.drop_last()) == 0);
    assert(number(one) == d);
}

/// Nothing but digits behind an optional plus sign is a number, and nothing above
/// the limit is.
pub proof fn other_text_is_no_number(s: Seq<char>, i: int, max: nat)
    requires
        0 <= i < s.len(),
        !('0' <= s[i] <= '9'),
        i > 0 || s[i] != '+' || s.len() == 1,
    ensures
        parsed(s, max) is None,
        parsed(Seq::<char>::empty(), max) is None,
{
    let digits = unsigned_part(s);
    if s.len() > 0 && s.first() == '+' {
        if i > 0 {
            assert(digits[i - 1] == s[i]);
        }
    } else {
        assert(digits[i] == s[i]);
    }
}

/// The decimal notation of a number holds digits alone, so that it is neither
/// trimmed nor taken apart.
pub proof fn decimals_are_plain(n: nat, c: char)
    requires
        !('0' <= c <= '9'),
    ensures
        decimal(n).len() > 0,
        !decimal(n).contains(c),
        forall|i: int|
            0 <= i < decimal(n).len() ==> !crate::text::strings::is_whitespace(
                #[trigger] decimal(n)[i],
            ),
        crate::text::strings::trimmed(decimal(n)) == decimal(n),
{
    lemma_decimal(n);
    let text = decimal(n);
    assert forall|i: int| 0 <= i < text.len() implies text[i] != c
        && !crate::text::strings::is_whitespace(#[trigger] text[i]) by {
        assert(is_digit(text[i]));
    }
    let none = Seq::<char>::empty();
    assert(!crate::text::strings::is_whitespace(text[0]));
    assert(!crate::text::strings::is_whitespace(text[text.len() - 1]));
    crate::text::strings::padding_is_trimmed(none, text, none);
    assert(none + text + none =~= text);
}

/// A hexadecimal notation has so many digits, the last of which is the remainder
/// by 16, written `0` to `9` and `a` to `f`, and the others are the notation of
/// the quotient.
pub proof fn hex_digits_are_remainders(n: nat, width: nat)
    ensures
        hex_digits(n, width + 1) == hex_digits(n / 16, width).push(
            seq!['0', '1', '2', '3', '4', '5', '6', '7', '8', '9', 'a', 'b', 'c', 'd', 'e', 'f'][(n
                % 16) as int],
        ),
        hex_digits(n, 0).len() == 0,
{
    assert(n % 16 < 16);
}

/// Blanks around a number do not change what it says once they are trimmed, and
/// keep it from being one where they are not.
pub proof fn blanks_around_a_number(n: nat, left: Seq<char>, right: Seq<char>, max: nat)
    requires
        crate::text::strings::blank(left),
        crate::text::strings::blank(right),
    ensures
        crate::text::strings::trimmed(left + decimal(n) + right) == decimal(n),
        crate::text::strings::trimmed(decimal(n)) == decimal(n),
        left.len() + right.len() > 0 ==> parsed(left + decimal(n) + right, max) is None,
{
    let text = decimal(n);
    let all = left + text + right;
    decimals_are_plain(n, ' ');
    assert(!crate::text::strings::is_whitespace(text[0]));
    assert(!crate::text::strings::is_whitespace(text[text.len() - 1]));
    crate::text::strings::padding_is_trimmed(left, text, right);
    if left.len() > 0 {
        assert(crate::text::strings::is_whitespace(left[0]));
        assert(all[0] == left[0]);
        other_text_is_no_number(all, 0, max);
    } else if right.len() > 0 {
        assert(crate::text::strings::is_whitespace(right[0]));
        assert(all[text.len() as int] == right[0]);
        other_text_is_no_number(all, text.len() as int, max);
    }
}

} // verus!
