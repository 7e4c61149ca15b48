//! Whole numbers as decimal text.

use vstd::prelude::*;
use crate::text;

verus! {

/// The digit character of a number below ten.
pub open spec fn digit_char(d: nat) -> char {
    (48 + d) as char
}

/// The number that a digit character stands for.
pub open spec fn digit_value(c: char) -> nat {
    (c as u32 - 48) as nat
}

/// `n` in decimal, without leading zeros.
pub open spec fn decimal(n: nat) -> Seq<char>
    decreases n,
{
    if n < 10 {
        seq![digit_char(n)]
    } else {
        decimal(n / 10).push(digit_char(n % 10))
    }
}

fn digit_of(d: u64) -> (c: char)
    requires
        d < 10,
    ensures
        c == digit_char(d as nat),
{
    let code: u8 = 48 + d as u8;
    code as char
}

/// The decimal text of `n`.
pub fn decimal_of(n: u64) -> (r: String)
    ensures
        r@ == decimal(n as nat),
    decreases n,
{
    let mut r: String = if n < 10 {
        String::new()
    } else {
        decimal_of(n / 10)
    };
    r.push(digit_of(n % 10));
    proof {
        if n < 10 {
            assert(r@ =~= seq![digit_char(n as nat)]);
        }
    }
    r
}

/// Every character of `s` is a decimal digit.
pub open spec fn all_digits(s: Seq<char>) -> bool {
    forall|i: int| 0 <= i < s.len() ==> text::is_ascii_digit(#[trigger] s[i])
}

/// The number that a text of digits stands for.
pub open spec fn digits_value(s: Seq<char>) -> nat
    decreases s.len(),
{
    if s.len() == 0 {
        0
    } else {
        digits_value(s.drop_last()) * 10 + digit_value(s.last())
    }
}

/// `s` without one leading `+`.
pub open spec fn without_plus(s: Seq<char>) -> Seq<char> {
    if s.len() > 0 && s[0] == '+' {
        s.skip(1)
    } else {
        s
    }
}

/// What reading `s` as an unsigned number of at most `max` gives.
pub open spec fn parse_unsigned(s: Seq<char>, max: nat) -> Option<nat> {
    let digits = without_plus(s);
    if digits.len() > 0 && all_digits(digits) && digits_value(digits) <= max {
        Some(digits_value(digits))
    } else {
        None
    }
}

/// What reading `s` as a signed number from `-max - 1` to `max` gives.
pub open spec fn parse_signed(s: Seq<char>, max: nat) -> Option<int> {
    if s.len() > 0 && s[0] == '-' {
        let digits = s.skip(1);
        if digits.len() > 0 && all_digits(digits) && digits_value(digits) <= max + 1 {
            Some(-(digits_value(digits) as int))
        } else {
            None
        }
    } else {
        match parse_unsigned(s, max) {
            Some(n) => Some(n as int),
            None => None,
        }
    }
}

/// A longer text of digits stands for no smaller number.
pub proof fn lemma_digits_value_grows(s: Seq<char>, i: int)
    requires
        0 <= i <= s.len(),
    ensures
        digits_value(s.take(i)) <= digits_value(s),
    decreases s.len(),
{
    if i < s.len() {
        lemma_digits_value_grows(s.drop_last(), i);
        assert(s.drop_last().take(i) =~= s.take(i));
    } else {
        assert(s.take(i) =~= s);
    }
}

/// The value of the digits of `v` from index `from` on, if it is at most `max`.
fn read_digits(v: &Vec<char>, from: usize, max: u64) -> (r: Option<u64>)
    requires
        from <= v@.len(),
    ensures
        match r {
            Some(n) => from < v@.len() && all_digits(v@.skip(from as int)) && n == digits_value(
                v@.skip(from as int),
            ) && n <= max,
            None => !(from < v@.len() && all_digits(v@.skip(from as int)) && digits_value(
                v@.skip(from as int),
            ) <= max),
        },
{
    let ghost digits = v@.skip(from as int);
    if from == v.len() {
        return None;
    }
    let mut value: u64 = 0;
    let mut i: usize = from;
    while i < v.len()
        invariant
            from <= i <= v@.len(),
            digits == v@.skip(from as int),
            value == digits_value(digits.take(i - from)),
            value <= max,
            forall|j: int| 0 <= j < i - from ==> text::is_ascii_digit(#[trigger] digits[j]),
        decreases v@.len() - i,
    {
        let c: char = v[i];
        assert(digits[i - from] == c);
        if !text::ascii_digit(c) {
            return None;
        }
        let d: u64 = (c as u32 - 48) as u64;
        proof {
            let next = digits.take(i - from + 1);
            assert(next.drop_last() =~= digits.take(i - from));
            assert(next.last() == c);
            lemma_digits_value_grows(digits, i - from + 1);
        }
        if value > max / 10 {
            return None;
        }
        let tens: u64 = value * 10;
        if d > max - tens {
            return None;
        }
        value = tens + d;
        i = i + 1;
    }
    assert(digits.take(i - from) =~= digits);
    Some(value)
}

/// Reads an unsigned number of at most `max`: digits, with or without a `+`
/// before them.
pub fn parse_up_to(s: &str, max: u64) -> (r: Option<u64>)
    ensures
        match r {
            Some(n) => parse_unsigned(s@, max as nat) == Some(n as nat),
            None => parse_unsigned(s@, max as nat) is None,
        },
{
    let v: Vec<char> = text::chars_of(s);
    assert(v@.skip(0) =~= s@);
    if v.len() > 0 && v[0] == '+' {
        read_digits(&v, 1, max)
    } else {
        read_digits(&v, 0, max)
    }
}

/// `str::parse::<u64>`.
pub fn parse_u64(s: &str) -> (r: Option<u64>)
    ensures
        match r {
            Some(n) => parse_unsigned(s@, u64::MAX as nat) == Some(n as nat),
            None => parse_unsigned(s@, u64::MAX as nat) is None,
        },
{
    parse_up_to(s, u64::MAX)
}

/// `str::parse::<usize>`.
pub fn parse_usize(s: &str) -> (r: Option<usize>)
    ensures
        match r {
            Some(n) => parse_unsigned(s@, usize::MAX as nat) == Some(n as nat),
            None => parse_unsigned(s@, usize::MAX as nat) is None,
        },
{
    match parse_up_to(s, usize::MAX as u64) {
        Some(n) => Some(n as usize),
        None => None,
    }
}

/// `str::parse::<i64>`.
pub fn parse_i64(s: &str) -> (r: Option<i64>)
    ensures
        match r {
            Some(n) => parse_signed(s@, i64::MAX as nat) == Some(n as int),
            None => parse_signed(s@, i64::MAX as nat) is None,
        },
{
    let v: Vec<char> = text::chars_of(s);
    if v.len() > 0 && v[0] == '-' {
        match read_digits(&v, 1, 0x8000_0000_0000_0000) {
            Some(n) => if n == 0x8000_0000_0000_0000 {
                Some(i64::MIN)
            } else {
                Some(-(n as i64))
            },
            None => None,
        }
    } else {
        match parse_up_to(s, 0x7fff_ffff_ffff_ffff) {
            Some(n) => Some(n as i64),
            None => None,
        }
    }
}

proof fn lemma_decimal_is_digits(n: nat)
    ensures
        decimal(n).len() > 0,
        all_digits(decimal(n)),
        digits_value(decimal(n)) == n,
    decreases n,
{
    if n < 10 {
        assert(decimal(n).drop_last() =~= Seq::<char>::empty());
        assert(digits_value(decimal(n).drop_last()) == 0);
        assert(decimal(n).last() == digit_char(n));
    } else {
        lemma_decimal_is_digits(n / 10);
        assert(decimal(n).drop_last() =~= decimal(n / 10));
        assert(decimal(n).last() == digit_char(n % 10));
        assert forall|i: int| 0 <= i < decimal(n).len() implies text::is_ascii_digit(
            #[trigger] decimal(n)[i],
        ) by {
            if i < decimal(n).len() - 1 {
                assert(decimal(n)[i] == decimal(n / 10)[i]);
            }
        }
    }
}

/// Reading back the decimal text of a number gives the number.
pub proof fn law_decimal_reads_back(n: nat, max: nat)
    requires
        n <= max,
    ensures
        parse_unsigned(decimal(n), max) == Some(n),
{
    lemma_decimal_is_digits(n);
    assert(text::is_ascii_digit(decimal(n)[0]));
}

} // verus!
