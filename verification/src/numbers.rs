//! Integers in decimal notation.
use crate::text::{chars_of, digit, digit_value, has_prefix, is_digit};
use vstd::prelude::*;

verus! {

/// The value of a run of decimal digits.
pub open spec fn digits_value(s: Seq<char>) -> int
    decreases s.len(),
{
    if s.len() == 0 {
        0
    } else {
        digits_value(s.drop_last()) * 10 + digit_value(s.last())
    }
}

pub open spec fn all_digits(s: Seq<char>) -> bool {
    forall|i: int| 0 <= i < s.len() ==> is_digit(#[trigger] s[i])
}

/// The integer that `s` writes down: digits, behind one sign at most.
pub open spec fn integer_value(s: Seq<char>) -> Option<int> {
    let signed = s.len() > 0 && (s[0] == '+' || s[0] == '-');
    let digits = if signed {
        s.drop_first()
    } else {
        s
    };
    if digits.len() == 0 || !all_digits(digits) {
        None
    } else if signed && s[0] == '-' {
        Some(-digits_value(digits))
    } else {
        Some(digits_value(digits))
    }
}

/// The integer that `s` writes down, where it lies between the two bounds.
pub open spec fn bounded_value(s: Seq<char>, min: int, max: int) -> Option<int> {
    match integer_value(s) {
        Some(value) if min <= value <= max => Some(value),
        _ => None,
    }
}

/// An unsigned type takes no minus sign, not even before a zero.
pub open spec fn natural_value(s: Seq<char>, max: int) -> Option<int> {
    if s.len() > 0 && s[0] == '-' {
        None
    } else {
        bounded_value(s, 0, max)
    }
}

proof fn lemma_digits_monotone(s: Seq<char>, k: int)
    requires
        0 <= k <= s.len(),
        all_digits(s),
    ensures
        0 <= digits_value(s.take(k)) <= digits_value(s),
    decreases s.len(),
{
    if k == s.len() {
        assert(s.take(k) =~= s);
        if s.len() > 0 {
            assert(all_digits(s.drop_last()));
            lemma_digits_monotone(s.drop_last(), k - 1);
            assert(is_digit(s[s.len() - 1]));
        }
    } else {
        assert(s.drop_last().take(k) =~= s.take(k));
        assert(all_digits(s.drop_last()));
        lemma_digits_monotone(s.drop_last(), k);
        assert(is_digit(s[s.len() - 1]));
    }
}

/// The value of the digits from `start` on, where there is one and it is no more than `limit`.
fn parse_digits(chars: &Vec<char>, start: usize, limit: u128) -> (result: Option<u128>)
    requires
        start <= chars.len(),
        limit <= 0x1_0000_0000_0000_0000,
    ensures
        ({
            let digits = chars@.skip(start as int);
            match result {
                Some(value) => digits.len() > 0 && all_digits(digits) && value == digits_value(
                    digits,
                ) && value <= limit,
                None => digits.len() == 0 || !all_digits(digits) || digits_value(digits) > limit,
            }
        }),
{
    if start == chars.len() {
        return None;
    }
    let ghost digits = chars@.skip(start as int);
    let mut value: u128 = 0;
    let mut i: usize = start;
    while i < chars.len()
        invariant
            start <= i <= chars.len(),
            limit <= 0x1_0000_0000_0000_0000,
            digits == chars@.skip(start as int),
            all_digits(digits.take(i - start)),
            value == digits_value(digits.take(i - start)),
            value <= limit,
        decreases chars.len() - i,
    {
        let c = chars[i];
        let ghost k = i - start;
        assert(digits[k] == c);
        if !digit(c) {
            assert(!is_digit(digits[k]));
            return None;
        }
        let d: u128 = c as u128 - '0' as u128;
        value = value * 10 + d;
        proof {
            assert(digits.take(k + 1).drop_last() =~= digits.take(k));
            assert(digits.take(k + 1).last() == c);
        }
        if value > limit {
            proof {
                if all_digits(digits) {
                    lemma_digits_monotone(digits, k + 1);
                }
            }
            return None;
        }
        i += 1;
    }
    assert(digits.take(digits.len() as int) =~= digits);
    Some(value)
}

/// The integer between `min` and `max` that the text writes down.
pub fn parse_between(s: &str, min: i128, max: i128) -> (result: Option<i128>)
    requires
        -0x1_0000_0000_0000_0000 <= min <= 0 <= max <= 0x1_0000_0000_0000_0000,
    ensures
        result matches Some(value) ==> bounded_value(s@, min as int, max as int) == Some(
            value as int,
        ),
        result is None ==> bounded_value(s@, min as int, max as int) is None,
{
    let chars = chars_of(s);
    if chars.len() > 0 && chars[0] == '-' {
        assert(s@.skip(1) =~= s@.drop_first());
        match parse_digits(&chars, 1, (-min) as u128) {
            Some(value) => Some(-(value as i128)),
            None => None,
        }
    } else if chars.len() > 0 && chars[0] == '+' {
        assert(s@.skip(1) =~= s@.drop_first());
        match parse_digits(&chars, 1, max as u128) {
            Some(value) => {
                proof {
                    lemma_digits_monotone(s@.drop_first(), 0);
                }
                Some(value as i128)
            },
            None => None,
        }
    } else {
        assert(s@.skip(0) =~= s@);
        match parse_digits(&chars, 0, max as u128) {
            Some(value) => Some(value as i128),
            None => None,
        }
    }
}

pub fn parse_i64(s: &str) -> (result: Option<i64>)
    ensures
        result matches Some(value) ==> bounded_value(s@, i64::MIN as int, i64::MAX as int) == Some(
            value as int,
        ),
        result is None ==> bounded_value(s@, i64::MIN as int, i64::MAX as int) is None,
{
    match parse_between(s, i64::MIN as i128, i64::MAX as i128) {
        Some(value) => Some(value as i64),
        None => None,
    }
}

pub fn parse_i32(s: &str) -> (result: Option<i32>)
    ensures
        result matches Some(value) ==> bounded_value(s@, i32::MIN as int, i32::MAX as int) == Some(
            value as int,
        ),
        result is None ==> bounded_value(s@, i32::MIN as int, i32::MAX as int) is None,
{
    match parse_between(s, i32::MIN as i128, i32::MAX as i128) {
        Some(value) => Some(value as i32),
        None => None,
    }
}

pub fn parse_u64(s: &str) -> (result: Option<u64>)
    ensures
        result matches Some(value) ==> natural_value(s@, u64::MAX as int) == Some(value as int),
        result is None ==> natural_value(s@, u64::MAX as int) is None,
{
    if has_prefix(s, "-") {
        proof {
            reveal_strlit("-");
            assert(s@[0] == s@.subrange(0, 1)[0]);
        }
        return None;
    }
    proof {
        reveal_strlit("-");
        if s@.len() > 0 && s@[0] == '-' {
            assert(s@.subrange(0, 1) =~= "-"@);
        }
    }
    match parse_between(s, 0, u64::MAX as i128) {
        Some(value) => Some(value as u64),
        None => None,
    }
}

pub open spec fn digit_char(value: int) -> char {
    (('0' as u32 + value) as u32) as char
}

/// The decimal notation of a natural number.
pub open spec fn natural_text(n: nat) -> Seq<char>
    decreases n,
{
    if n < 10 {
        seq![digit_char(n as int)]
    } else {
        natural_text(n / 10).push(digit_char((n % 10) as int))
    }
}

/// The decimal notation of an integer.
pub open spec fn integer_text(n: int) -> Seq<char> {
    if n < 0 {
        seq!['-'] + natural_text((-n) as nat)
    } else {
        natural_text(n as nat)
    }
}

fn push_natural(text: String, n: u128) -> (result: String)
    ensures
        result@ == text@ + natural_text(n as nat),
    decreases n,
{
    let mut result = text;
    if n >= 10 {
        result = push_natural(result, n / 10);
    }
    let digit: u8 = (n % 10) as u8;
    let c = (('0' as u8) + digit) as char;
    result.push(c);
    proof {
        assert(c == digit_char((n % 10) as int));
        if n < 10 {
            assert(text@.push(c) =~= text@ + natural_text(n as nat));
        } else {
            assert((text@ + natural_text((n / 10) as nat)).push(c) =~= text@ + natural_text(
                n as nat,
            ));
        }
    }
    result
}

pub fn to_text(n: i64) -> (result: String)
    ensures
        result@ == integer_text(n as int),
{
    if n < 0 {
        let mut result = String::new();
        result.push('-');
        assert(result@ =~= seq!['-']);
        let magnitude: u128 = (-(n as i128)) as u128;
        push_natural(result, magnitude)
    } else {
        let result = push_natural(String::new(), n as u128);
        assert(result@ =~= natural_text(n as nat));
        result
    }
}

pub fn natural_to_text(n: u128) -> (result: String)
    ensures
        result@ == integer_text(n as int),
{
    let result = push_natural(String::new(), n);
    assert(result@ =~= natural_text(n as nat));
    result
}

proof fn lemma_natural_text(n: nat)
    ensures
        natural_text(n).len() > 0,
        all_digits(natural_text(n)),
        digits_value(natural_text(n)) == n,
        n < 10 || natural_text(n)[0] != '0',
    decreases n,
{
    let s = natural_text(n);
    let d = (n % 10) as int;
    if n < 10 {
        assert(s.drop_last() =~= Seq::<char>::empty());
        assert(digits_value(Seq::<char>::empty()) == 0);
        assert(s.last() == digit_char(n as int));
    } else {
        lemma_natural_text(n / 10);
        assert(s.drop_last() =~= natural_text(n / 10));
        if n / 10 < 10 {
            assert(natural_text(n / 10) =~= seq![digit_char((n / 10) as int)]);
        }
    }
}

/// Reading back the decimal notation of an integer gives the integer.
pub proof fn law_integer_text_reads_back(n: int)
    ensures
        integer_value(integer_text(n)) == Some(n),
{
    if n < 0 {
        lemma_natural_text((-n) as nat);
        assert(integer_text(n).drop_first() =~= natural_text((-n) as nat));
    } else {
        lemma_natural_text(n as nat);
        assert(is_digit(integer_text(n)[0]));
    }
}

/// The decimal notation of an integer ends with a digit and starts with one or with a minus sign.
pub proof fn lemma_integer_text_ends(n: int)
    ensures
        integer_text(n).len() > 0,
        is_digit(integer_text(n)[0]) || integer_text(n)[0] == '-',
        is_digit(integer_text(n).last()),
{
    let size: nat = if n < 0 {
        (-n) as nat
    } else {
        n as nat
    };
    lemma_natural_text(size);
    assert(is_digit(natural_text(size)[0]));
    assert(is_digit(natural_text(size)[natural_text(size).len() - 1]));
}

/// The decimal notation of a natural number is made of digits.
pub proof fn lemma_natural_digits(n: nat)
    ensures
        natural_text(n).len() > 0,
        all_digits(natural_text(n)),
{
    lemma_natural_text(n);
}

/// The decimal notation of a natural number starts with a digit.
pub proof fn lemma_natural_text_starts(n: nat)
    ensures
        integer_text(n as int)[0] != '-',
{
    lemma_natural_text(n);
    assert(is_digit(natural_text(n)[0]));
}

/// A sign counts where it stands in front of digits: a minus turns the number round, a plus changes
/// nothing, and neither do zeros in front. Anything but digits behind one sign at most is no number,
/// and neither is nothing at all.
pub proof fn law_numbers_are_signed_digits(digits: Seq<char>)
    requires
        digits.len() > 0,
    ensures
        all_digits(digits) ==> integer_value(digits) is Some && integer_value(digits)->Some_0 >= 0,
        all_digits(digits) ==> integer_value(seq!['-'] + digits) == Some(
            -integer_value(digits)->Some_0,
        ),
        all_digits(digits) ==> integer_value(seq!['+'] + digits) == integer_value(digits),
        all_digits(digits) ==> integer_value(seq!['0'] + digits) == integer_value(digits),
        all_digits(digits) ==> forall|c: char|
            '0' <= c <= '9' ==> #[trigger] integer_value(digits.push(c)) == Some(
                integer_value(digits)->Some_0 * 10 + (c as int - '0' as int),
            ),
        (exists|i: int| 1 <= i < digits.len() && !is_digit(#[trigger] digits[i])) ==> integer_value(
            digits,
        ) is None,
        integer_value(Seq::empty()) is None,
        integer_value(seq!['-']) is None,
        integer_value(seq!['+']) is None,
{
    if all_digits(digits) {
        assert(is_digit(digits[0]));
        lemma_digits_are_natural(digits);
        assert((seq!['-'] + digits).drop_first() =~= digits);
        assert((seq!['+'] + digits).drop_first() =~= digits);
        lemma_leading_zero(digits);
        let zeroed = seq!['0'] + digits;
        assert(all_digits(zeroed)) by {
            assert forall|i: int| 0 <= i < zeroed.len() implies is_digit(#[trigger] zeroed[i]) by {
                if i > 0 {
                    assert(zeroed[i] == digits[i - 1]);
                }
            }
        }
        assert forall|c: char| '0' <= c <= '9' implies #[trigger] integer_value(digits.push(c))
            == Some(integer_value(digits)->Some_0 * 10 + (c as int - '0' as int)) by {
            let longer = digits.push(c);
            assert(longer.drop_last() =~= digits);
            assert(longer[0] == digits[0]);
            assert(all_digits(longer));
        }
    }
    if exists|i: int| 1 <= i < digits.len() && !is_digit(#[trigger] digits[i]) {
        let i = choose|i: int| 1 <= i < digits.len() && !is_digit(#[trigger] digits[i]);
        assert(digits.drop_first()[i - 1] == digits[i]);
    }
    assert(seq!['-'].drop_first() =~= Seq::empty());
    assert(seq!['+'].drop_first() =~= Seq::empty());
}

proof fn lemma_digits_are_natural(s: Seq<char>)
    requires
        all_digits(s),
    ensures
        digits_value(s) >= 0,
    decreases s.len(),
{
    if s.len() > 0 {
        assert(is_digit(s[s.len() - 1]));
        assert(all_digits(s.drop_last())) by {
            assert forall|i: int| 0 <= i < s.len() - 1 implies is_digit(
                #[trigger] s.drop_last()[i],
            ) by {
                assert(s.drop_last()[i] == s[i]);
            }
        }
        lemma_digits_are_natural(s.drop_last());
    }
}

proof fn lemma_leading_zero(s: Seq<char>)
    ensures
        digits_value(seq!['0'] + s) == digits_value(s),
    decreases s.len(),
{
    let zeroed = seq!['0'] + s;
    if s.len() == 0 {
        assert(zeroed.drop_last() =~= Seq::empty());
        assert(digits_value(zeroed.drop_last()) == 0);
        assert(zeroed.last() == '0');
    } else {
        assert(zeroed.drop_last() =~= seq!['0'] + s.drop_last());
        assert(zeroed.last() == s.last());
        lemma_leading_zero(s.drop_last());
    }
}

/// A number is read between two bounds exactly where it lies between them, and a natural number
/// only where no minus sign stands in front.
pub proof fn law_numbers_are_read_within_their_bounds(s: Seq<char>, min: int, max: int)
    ensures
        bounded_value(s, min, max) is Some <==> integer_value(s) is Some && min
            <= integer_value(s)->Some_0 <= max,
        bounded_value(s, min, max) is Some ==> bounded_value(s, min, max) == integer_value(s),
        natural_value(s, max) is Some <==> integer_value(s) is Some && s[0] != '-' && 0
            <= integer_value(s)->Some_0 <= max,
        natural_value(s, max) is Some ==> natural_value(s, max) == integer_value(s),
{
}

} // verus!
