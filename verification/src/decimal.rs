//! Decimal numerals: how integers are written into names and read back out of them.

use vstd::prelude::*;

use crate::text::chars_of;

verus! {

/// The character of the digit `d`.
pub open spec fn digit_char(d: nat) -> char {
    ((48 + d) as u8) as char
}

/// The decimal numeral of `n`, without leading zeros.
pub open spec fn digits(n: nat) -> Seq<char>
    decreases n,
{
    if n < 10 {
        seq![digit_char(n)]
    } else {
        digits(n / 10).push(digit_char(n % 10))
    }
}

/// The decimal numeral of `n`, with a minus sign where it is negative.
pub open spec fn numeral(n: int) -> Seq<char> {
    if n < 0 {
        seq!['-'] + digits((-n) as nat)
    } else {
        digits(n as nat)
    }
}

pub open spec fn is_digit(c: char) -> bool {
    '0' <= c <= '9'
}

/// Whether `s` is one digit or more and nothing else.
pub open spec fn is_digits(s: Seq<char>) -> bool {
    s.len() > 0 && forall|i: int| 0 <= i < s.len() ==> is_digit(#[trigger] s[i])
}

/// The number that a sequence of digits stands for.
pub open spec fn digits_value(s: Seq<char>) -> nat
    decreases s.len(),
{
    if s.len() == 0 {
        0
    } else {
        10 * digits_value(s.drop_last()) + (s.last() as u32 - '0' as u32) as nat
    }
}

/// The number that an unsigned numeral stands for: digits, after a plus sign or none.
pub open spec fn unsigned_value(s: Seq<char>) -> Option<nat> {
    let t = if s.len() > 0 && s[0] == '+' {
        s.skip(1)
    } else {
        s
    };
    if is_digits(t) {
        Some(digits_value(t))
    } else {
        None
    }
}

/// The number that a signed numeral stands for: digits, after a sign or none.
pub open spec fn signed_value(s: Seq<char>) -> Option<int> {
    if s.len() > 0 && s[0] == '-' {
        if is_digits(s.skip(1)) {
            Some(-(digits_value(s.skip(1)) as int))
        } else {
            None
        }
    } else {
        match unsigned_value(s) {
            Some(n) => Some(n as int),
            None => None,
        }
    }
}

/// What reading `s` as an unsigned number of at most `max` gives.
pub open spec fn read_unsigned(s: Seq<char>, max: nat) -> Option<nat> {
    match unsigned_value(s) {
        Some(n) => if n <= max {
            Some(n)
        } else {
            None
        },
        None => None,
    }
}

/// A numeral is made of digits, and stands for the number it was made of.
pub proof fn lemma_digits_value(n: nat)
    ensures
        is_digits(digits(n)),
        digits_value(digits(n)) == n,
    decreases n,
{
    reveal_with_fuel(digits_value, 2);
    if n < 10 {
        assert(digits(n).drop_last() =~= Seq::empty());
    } else {
        lemma_digits_value(n / 10);
        let s = digits(n / 10);
        assert(s.push(digit_char(n % 10)).drop_last() =~= s);
        assert forall|i: int| 0 <= i < digits(n).len() implies is_digit(#[trigger] digits(n)[i]) by {
            if i < s.len() {
                assert(digits(n)[i] == s[i]);
            }
        }
    }
}

/// Reading a number back from its numeral gives the number.
pub proof fn law_read_back(n: nat, max: nat)
    requires
        n <= max,
    ensures
        read_unsigned(digits(n), max) == Some(n),
{
    lemma_digits_value(n);
    assert(is_digit(digits(n)[0]));
}

/// Reading a signed number back from its numeral gives the number.
pub proof fn law_read_back_signed(n: int)
    ensures
        signed_value(numeral(n)) == Some(n),
{
    if n < 0 {
        lemma_digits_value((-n) as nat);
        assert(numeral(n).skip(1) =~= digits((-n) as nat));
    } else {
        lemma_digits_value(n as nat);
        assert(is_digit(digits(n as nat)[0]));
    }
}

/// Different numbers have different numerals.
pub proof fn law_digits_distinct(m: nat, n: nat)
    requires
        m != n,
    ensures
        digits(m) != digits(n),
{
    lemma_digits_value(m);
    lemma_digits_value(n);
}

/// The numeral of a number below ten is its digit. Appending a digit to the numeral of another number
/// gives the numeral of ten times that number and the digit.
pub proof fn law_numerals_are_decimal(n: nat, d: nat, c: char)
    requires
        d < 10,
        c as u32 == '0' as u32 + d,
    ensures
        digits(d) == seq![c],
        n > 0 ==> digits(10 * n + d) == digits(n).push(c),
        numeral(n as int) == digits(n),
        n > 0 ==> numeral(-(n as int)) == seq!['-'] + digits(n),
{
    assert(digit_char(d) == c);
}

/// A text is read as a number only where it is digits and nothing else, a plus sign before them
/// aside, and the number is not above the bound.
pub proof fn law_read_of_other_texts(s: Seq<char>, n: nat, max: nat)
    ensures
        read_unsigned(seq!['+'] + digits(n), max) == (if n <= max {
            Some(n)
        } else {
            None
        }),
        n > max ==> read_unsigned(digits(n), max) is None,
        s.len() == 0 ==> read_unsigned(s, max) is None,
        s.len() == 1 && s[0] == '+' ==> read_unsigned(s, max) is None,
        (exists|k: int| 1 <= k < s.len() && !('0' <= #[trigger] s[k] <= '9')) ==> read_unsigned(
            s,
            max,
        ) is None,
        s.len() > 0 && s[0] != '+' && !('0' <= s[0] <= '9') ==> read_unsigned(s, max) is None,
        read_unsigned(s, max) matches Some(v) ==> v <= max,
{
    lemma_digits_value(n);
    assert((seq!['+'] + digits(n)).skip(1) =~= digits(n));
    assert(is_digit(digits(n)[0]));
    let t = if s.len() > 0 && s[0] == '+' {
        s.skip(1)
    } else {
        s
    };
    if exists|k: int| 1 <= k < s.len() && !('0' <= #[trigger] s[k] <= '9') {
        let k = choose|k: int| 1 <= k < s.len() && !('0' <= #[trigger] s[k] <= '9');
        if t.len() < s.len() {
            assert(!is_digit(t[k - 1]));
        } else {
            assert(!is_digit(t[k]));
        }
    }
    if s.len() > 0 && s[0] != '+' && !('0' <= s[0] <= '9') {
        assert(!is_digit(t[0]));
    }
}

/// The numeral of `n`.
pub fn decimal(n: u64) -> (s: String)
    ensures
        s@ == digits(n as nat),
    decreases n,
{
    if n < 10 {
        let mut s = String::new();
        s.push((48 + n as u8) as char);
        assert(s@ =~= seq![digit_char(n as nat)]);
        s
    } else {
        let mut s = decimal(n / 10);
        s.push((48 + (n % 10) as u8) as char);
        s
    }
}

/// The numeral of a signed number.
pub fn decimal_signed(n: i64) -> (s: String)
    ensures
        s@ == numeral(n as int),
{
    if n < 0 {
        let mut s = String::new();
        s.push('-');
        assert(s@ =~= seq!['-']);
        let m = decimal((-(n as i128)) as u64);
        s.append(m.as_str());
        s
    } else {
        decimal(n as u64)
    }
}

fn read_digits(v: &Vec<char>, from: usize, max: u64) -> (r: Option<u64>)
    requires
        from <= v@.len(),
    ensures
        (match r {
            Some(n) => Some(n as nat),
            None => None,
        }) == (if is_digits(v@.skip(from as int)) && digits_value(v@.skip(from as int)) <= max {
            Some(digits_value(v@.skip(from as int)))
        } else {
            None
        }),
{
    let ghost t = v@.skip(from as int);
    if from == v.len() {
        return None;
    }
    let mut value: u128 = 0;
    let mut over: bool = false;
    let mut i: usize = from;
    assert(t.take(0) =~= Seq::empty());
    while i < v.len()
        invariant
            from <= i <= v@.len(),
            t == v@.skip(from as int),
            forall|k: int| 0 <= k < i - from ==> is_digit(#[trigger] t[k]),
            !over ==> value == digits_value(t.take(i - from)) && value <= max,
            over ==> digits_value(t.take(i - from)) > max,
        decreases v.len() - i,
    {
        let c = v[i];
        assert(c == t[i - from]);
        if c < '0' || c > '9' {
            assert(!is_digit(t[i - from]));
            return None;
        }
        assert(t.take(i - from + 1).drop_last() =~= t.take(i - from));
        if !over {
            value = 10 * value + (c as u32 - '0' as u32) as u128;
            if value > max as u128 {
                over = true;
            }
        }
        i += 1;
    }
    assert(t.take(i - from) =~= t);
    if over {
        None
    } else {
        Some(value as u64)
    }
}

/// Reads an unsigned number of at most `max`.
pub fn parse_unsigned(s: &str, max: u64) -> (r: Option<u64>)
    ensures
        (match r {
            Some(n) => Some(n as nat),
            None => None,
        }) == read_unsigned(s@, max as nat),
{
    let v = chars_of(s);
    assert(v@.skip(0) =~= v@);
    if v.len() > 0 && v[0] == '+' {
        read_digits(&v, 1, max)
    } else {
        read_digits(&v, 0, max)
    }
}

/// Reads a signed number of 64 bits.
pub fn parse_signed(s: &str) -> (r: Option<i64>)
    ensures
        (match r {
            Some(n) => Some(n as int),
            None => None,
        }) == (match signed_value(s@) {
            Some(n) => if i64::MIN <= n <= i64::MAX {
                Some(n)
            } else {
                None
            },
            None => None,
        }),
{
    let v = chars_of(s);
    assert(v@.skip(0) =~= v@);
    if v.len() > 0 && v[0] == '-' {
        match read_digits(&v, 1, 0x8000_0000_0000_0000) {
            Some(n) => Some((-(n as i128)) as i64),
            None => None,
        }
    } else {
        match parse_unsigned(s, 0x7fff_ffff_ffff_ffff) {
            Some(n) => Some(n as i64),
            None => None,
        }
    }
}

} // verus!
