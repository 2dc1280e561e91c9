//! Decimal numerals: writing them and reading them back.

use vstd::prelude::*;
use vstd::string::*;

verus! {

/// The character of the digit `d`.
pub open spec fn digit(d: nat) -> char {
    (0x30 + d) as char
}

/// `n` in decimal, without leading zeros.
pub open spec fn decimal(n: nat) -> Seq<char>
    decreases n,
{
    if n < 10 {
        seq![digit(n)]
    } else {
        decimal(n / 10).push(digit(n % 10))
    }
}

/// `n` in decimal, with a leading minus where it is negative.
pub open spec fn signed_decimal(n: int) -> Seq<char> {
    if n < 0 {
        seq!['-'] + decimal((-n) as nat)
    } else {
        decimal(n as nat)
    }
}

/// An ASCII digit.
pub open spec fn is_digit(c: char) -> bool {
    '0' <= c <= '9'
}

/// `s` is made of ASCII digits alone.
pub open spec fn all_digits(s: Seq<char>) -> bool {
    forall|i: int| 0 <= i < s.len() ==> is_digit(#[trigger] s[i])
}

/// The number that the digits `s` stand for.
pub open spec fn number(s: Seq<char>) -> nat
    decreases s.len(),
{
    if s.len() == 0 {
        0
    } else {
        (number(s.drop_last()) * 10 + (s.last() as u32 - 0x30)) as nat
    }
}

/// A numeral is digits, at least one, and stands for the number it was made
/// from.
pub proof fn decimal_reads_back(n: nat)
    ensures
        decimal(n).len() > 0,
        all_digits(decimal(n)),
        number(decimal(n)) == n,
    decreases n,
{
    if n >= 10 {
        decimal_reads_back(n / 10);
        let before = decimal(n / 10);
        assert(decimal(n).drop_last() =~= before);
        assert forall|i: int| 0 <= i < decimal(n).len() implies is_digit(
            #[trigger] decimal(n)[i],
        ) by {
            if i < before.len() {
                assert(decimal(n)[i] == before[i]);
            }
        }
    } else {
        assert(decimal(n).drop_last() =~= Seq::empty());
        assert(number(Seq::empty()) == 0);
    }
}

/// Numerals of different numbers differ.
pub proof fn decimal_is_injective(a: nat, b: nat)
    requires
        decimal(a) == decimal(b),
    ensures
        a == b,
{
    decimal_reads_back(a);
    decimal_reads_back(b);
}

/// Dropping the last digit never makes the number larger.
proof fn lemma_number_prefix(s: Seq<char>, n: int)
    requires
        all_digits(s),
        0 <= n <= s.len(),
    ensures
        number(s.take(n)) <= number(s),
    decreases s.len() - n,
{
    if n < s.len() {
        lemma_number_prefix(s, n + 1);
        assert(is_digit(s[n]));
        assert(s.take(n + 1).drop_last() =~= s.take(n));
        assert(s.take(n + 1).last() == s[n]);
    } else {
        assert(s.take(n) =~= s);
    }
}

/// `n` in decimal.
pub fn decimal_text(n: u64) -> (text: String)
    ensures
        text@ == decimal(n as nat),
{
    long_decimal_text(n as u128)
}

/// `n` in decimal.
pub fn long_decimal_text(n: u128) -> (text: String)
    ensures
        text@ == decimal(n as nat),
    decreases n,
{
    let mut text = if n < 10 {
        String::new()
    } else {
        long_decimal_text(n / 10)
    };
    let d: u8 = (n % 10) as u8;
    text.push((0x30u8 + d) as char);
    assert(text@ =~= decimal(n as nat));
    text
}

/// `n` in decimal, with a leading minus where it is negative.
pub fn signed_decimal_text(n: i32) -> (text: String)
    ensures
        text@ == signed_decimal(n as int),
{
    if n < 0 {
        let mut text = String::new();
        text.push('-');
        let size: u64 = (-(n as i64)) as u64;
        let digits = decimal_text(size);
        text.append(digits.as_str());
        assert(text@ =~= signed_decimal(n as int));
        text
    } else {
        decimal_text(n as u64)
    }
}

/// The number that the digits from `from` on stand for, where they are digits,
/// at least one, and the number is at most `most`.
pub fn read_number(chars: &[char], from: usize, most: u64) -> (n: Option<u64>)
    requires
        from <= chars@.len(),
        most <= u64::MAX / 10 - 9,
    ensures
        n == ({
            let digits = chars@.skip(from as int);
            if digits.len() > 0 && all_digits(digits) && number(digits) <= most {
                Some(number(digits) as u64)
            } else {
                None
            }
        }),
{
    let ghost digits = chars@.skip(from as int);
    if from == chars.len() {
        return None;
    }
    let mut n: u64 = 0;
    let mut i: usize = from;
    assert(digits.take(0) =~= Seq::empty());
    while i < chars.len()
        invariant
            from <= i <= chars@.len(),
            digits == chars@.skip(from as int),
            digits.len() > 0,
            most <= u64::MAX / 10 - 9,
            n == number(digits.take(i - from)),
            n <= most,
            forall|j: int| 0 <= j < i - from ==> is_digit(#[trigger] digits[j]),
        decreases chars.len() - i,
    {
        let c = chars[i];
        assert(digits[i - from] == c);
        if !('0' <= c && c <= '9') {
            return None;
        }
        let ghost seen = digits.take(i + 1 - from);
        assert(seen.drop_last() =~= digits.take(i - from));
        assert(seen.last() == c);
        n = n * 10 + (c as u32 - 0x30) as u64;
        i = i + 1;
        if n > most {
            proof {
                if all_digits(digits) {
                    lemma_number_prefix(digits, i - from);
                }
            }
            return None;
        }
    }
    assert(digits.take(i - from) =~= digits);
    Some(n)
}

/// One more digit behind a numeral makes the number ten times as large, and as much more
/// as the digit stands for; digits that are read as a number at all are read in full.
pub proof fn digits_stand_for_their_places(s: Seq<char>, c: char)
    requires
        '0' <= c <= '9',
    ensures
        number(seq![c]) == c as u32 - '0' as u32,
        number(s.push(c)) == number(s) * 10 + (c as u32 - '0' as u32),
{
    assert(s.push(c).drop_last() =~= s);
    assert(seq![c].drop_last() =~= Seq::empty());
    assert(number(Seq::empty()) == 0);
}

/// A numeral has no more digits than it needs: it begins with a zero only where it is
/// zero. A negative number is its minus sign and the numeral of its size.
pub proof fn a_numeral_has_no_leading_zero(n: nat)
    ensures
        decimal(n)[0] == '0' <==> n == 0,
        signed_decimal(n as int) == decimal(n),
        n > 0 ==> signed_decimal(-(n as int)) == seq!['-'] + decimal(n),
    decreases n,
{
    if n >= 10 {
        a_numeral_has_no_leading_zero(n / 10);
        decimal_reads_back(n / 10);
        assert(decimal(n)[0] == decimal(n / 10)[0]);
    }
}

}
