//! Whole numbers in decimal: writing them and reading them.

use vstd::prelude::*;

use crate::text::{chars_of, code};

verus! {

pub const DIGITS: [char; 10] = ['0', '1', '2', '3', '4', '5', '6', '7', '8', '9'];

/// The decimal numeral of a number, without leading zeros.
pub open spec fn decimal(n: nat) -> Seq<char>
    decreases n,
{
    if n < 10 {
        seq![DIGITS@[n as int]]
    } else {
        decimal(n / 10).push(DIGITS@[(n % 10) as int])
    }
}

/// The decimal numeral of a number that may be negative.
pub open spec fn signed_decimal(n: int) -> Seq<char> {
    if n < 0 {
        seq!['-'] + decimal((-n) as nat)
    } else {
        decimal(n as nat)
    }
}

/// Writes a number in decimal.
pub fn write_u64(n: u64) -> (r: String)
    ensures
        r@ == decimal(n as nat),
    decreases n,
{
    if n < 10 {
        let mut s = String::new();
        s.push(DIGITS[n as usize]);
        assert(s@ =~= seq![DIGITS@[n as int]]);
        s
    } else {
        let mut s = write_u64(n / 10);
        s.push(DIGITS[(n % 10) as usize]);
        s
    }
}

/// Writes a number in decimal.
pub fn write_u32(n: u32) -> (r: String)
    ensures
        r@ == decimal(n as nat),
{
    write_u64(n as u64)
}

/// Writes a number in decimal, with a minus sign where it is negative.
pub fn write_i32(n: i32) -> (r: String)
    ensures
        r@ == signed_decimal(n as int),
{
    if n < 0 {
        let mut s = String::new();
        s.push('-');
        let m: i64 = -(n as i64);
        s.append(write_u64(m as u64).as_str());
        assert(s@ =~= seq!['-'] + decimal((-(n as int)) as nat));
        s
    } else {
        write_u64(n as u64)
    }
}

/// Whether the character is one of the ten digits.
pub open spec fn is_digit(c: char) -> bool {
    48 <= c as int <= 57
}

/// Whether the text is one or more digits.
pub open spec fn is_numeral(s: Seq<char>) -> bool {
    s.len() > 0 && forall|i: int| 0 <= i < s.len() ==> is_digit(#[trigger] s[i])
}

/// The number that a row of digits stands for.
pub open spec fn numeral(s: Seq<char>) -> nat
    decreases s.len(),
{
    if s.len() == 0 {
        0
    } else {
        numeral(s.drop_last()) * 10 + (s.last() as int - 48) as nat
    }
}

/// The number that a text of an optional plus sign and digits stands for.
pub open spec fn unsigned(s: Seq<char>) -> Option<nat> {
    let digits = if s.len() > 0 && s[0] == '+' {
        s.skip(1)
    } else {
        s
    };
    if is_numeral(digits) {
        Some(numeral(digits))
    } else {
        None
    }
}

/// The number that a text of an optional sign and digits stands for.
pub open spec fn signed(s: Seq<char>) -> Option<int> {
    if s.len() > 0 && s[0] == '-' {
        if is_numeral(s.skip(1)) {
            Some(-(numeral(s.skip(1)) as int))
        } else {
            None
        }
    } else {
        match unsigned(s) {
            Some(n) => Some(n as int),
            None => None,
        }
    }
}

/// The number, where it is not above the limit.
pub open spec fn up_to(n: Option<nat>, limit: nat) -> Option<nat> {
    match n {
        Some(v) => if v <= limit {
            Some(v)
        } else {
            None
        },
        None => None,
    }
}

/// The number, where it fits in 64 bits with a sign.
pub open spec fn within_i64(n: Option<int>) -> Option<int> {
    match n {
        Some(v) => if i64::MIN <= v <= i64::MAX {
            Some(v)
        } else {
            None
        },
        None => None,
    }
}

proof fn lemma_numeral_grows(s: Seq<char>, i: int)
    requires
        0 <= i <= s.len(),
    ensures
        numeral(s.take(i)) <= numeral(s),
    decreases s.len() - i,
{
    if i < s.len() {
        assert(s.take(i + 1).drop_last() =~= s.take(i));
        lemma_numeral_grows(s, i + 1);
    } else {
        assert(s.take(i) =~= s);
    }
}

/// Reads the digits from a position to the end, up to a limit.
fn read_digits(v: &Vec<char>, from: usize, limit: u64) -> (r: Option<u64>)
    requires
        from <= v@.len(),
    ensures
        ({
            let s = v@.skip(from as int);
            match r {
                Some(n) => is_numeral(s) && numeral(s) == n && n <= limit,
                None => !is_numeral(s) || numeral(s) > limit,
            }
        }),
{
    let ghost s = v@.skip(from as int);
    if from == v.len() {
        return None;
    }
    let mut acc: u64 = 0;
    let mut i: usize = from;
    assert(s.take(0) =~= Seq::<char>::empty());
    while i < v.len()
        invariant
            from <= i <= v@.len(),
            s == v@.skip(from as int),
            acc == numeral(s.take(i - from)),
            acc <= limit,
            forall|j: int| 0 <= j < i - from ==> is_digit(#[trigger] s[j]),
        decreases v@.len() - i,
    {
        let c = code(v[i]);
        assert(s[i - from] == v@[i as int]);
        if c < 48 || c > 57 {
            assert(!is_digit(s[i - from]));
            return None;
        }
        assert(s.take(i - from + 1).drop_last() =~= s.take(i - from));
        assert(s.take(i - from + 1).last() == v@[i as int]);
        let next: u128 = acc as u128 * 10 + (c - 48) as u128;
        if next > limit as u128 {
            proof {
                lemma_numeral_grows(s, i - from + 1);
            }
            return None;
        }
        acc = next as u64;
        i = i + 1;
    }
    assert(s.take(i - from) =~= s);
    Some(acc)
}

/// Reads an optional plus sign and digits, up to a limit.
pub fn read_unsigned(s: &str, limit: u64) -> (r: Option<u64>)
    ensures
        match r {
            Some(n) => up_to(unsigned(s@), limit as nat) == Some(n as nat),
            None => up_to(unsigned(s@), limit as nat) is None,
        },
{
    let v = chars_of(s);
    if v.len() > 0 && v[0] == '+' {
        read_digits(&v, 1, limit)
    } else {
        assert(s@.skip(0) =~= s@);
        read_digits(&v, 0, limit)
    }
}

/// Reads a number of 64 bits.
pub fn read_u64(s: &str) -> (r: Option<u64>)
    ensures
        match r {
            Some(n) => up_to(unsigned(s@), u64::MAX as nat) == Some(n as nat),
            None => up_to(unsigned(s@), u64::MAX as nat) is None,
        },
{
    read_unsigned(s, u64::MAX)
}

/// Reads a number of 32 bits.
pub fn read_u32(s: &str) -> (r: Option<u32>)
    ensures
        match r {
            Some(n) => up_to(unsigned(s@), u32::MAX as nat) == Some(n as nat),
            None => up_to(unsigned(s@), u32::MAX as nat) is None,
        },
{
    match read_unsigned(s, u32::MAX as u64) {
        Some(n) => Some(n as u32),
        None => None,
    }
}

/// Reads a number of 16 bits.
pub fn read_u16(s: &str) -> (r: Option<u16>)
    ensures
        match r {
            Some(n) => up_to(unsigned(s@), u16::MAX as nat) == Some(n as nat),
            None => up_to(unsigned(s@), u16::MAX as nat) is None,
        },
{
    match read_unsigned(s, u16::MAX as u64) {
        Some(n) => Some(n as u16),
        None => None,
    }
}

/// Reads a number of 64 bits that may have a sign.
pub fn read_i64(s: &str) -> (r: Option<i64>)
    ensures
        match r {
            Some(n) => within_i64(signed(s@)) == Some(n as int),
            None => within_i64(signed(s@)) is None,
        },
{
    let v = chars_of(s);
    if v.len() > 0 && v[0] == '-' {
        match read_digits(&v, 1, 0x8000_0000_0000_0000) {
            Some(n) => if n == 0x8000_0000_0000_0000 {
                Some(i64::MIN)
            } else {
                Some(-(n as i64))
            },
            None => None,
        }
    } else {
        match read_unsigned(s, i64::MAX as u64) {
            Some(n) => Some(n as i64),
            None => None,
        }
    }
}

/// A decimal numeral is digits, its first is no sign, and it stands for its number.
pub proof fn law_decimal_reads_back(n: nat)
    ensures
        is_numeral(decimal(n)),
        numeral(decimal(n)) == n,
        unsigned(decimal(n)) == Some(n),
        signed(decimal(n)) == Some(n as int),
    decreases n,
{
    lemma_decimal(n);
    assert(is_digit(decimal(n)[0]));
}

proof fn lemma_decimal(n: nat)
    ensures
        is_numeral(decimal(n)),
        numeral(decimal(n)) == n,
    decreases n,
{
    if n < 10 {
        assert(decimal(n).drop_last() =~= Seq::<char>::empty());
        assert(numeral(decimal(n).drop_last()) == 0);
        assert(decimal(n)[0] as int == 48 + n);
    } else {
        lemma_decimal(n / 10);
        assert(decimal(n).drop_last() =~= decimal(n / 10));
        assert(decimal(n).last() as int == 48 + n % 10);
        assert forall|i: int| 0 <= i < decimal(n).len() implies is_digit(#[trigger] decimal(n)[i]) by {
            if i < decimal(n).len() - 1 {
                assert(decimal(n)[i] == decimal(n / 10)[i]);
            }
        }
    }
}

/// A sign before a decimal numeral is read as such: a plus sign changes nothing, and a minus sign stands
/// only before a number that may be negative. Nothing alone is no number.
pub proof fn law_signs_are_read(n: nat)
    ensures
        unsigned(seq!['+'] + decimal(n)) == Some(n),
        signed(seq!['+'] + decimal(n)) == Some(n as int),
        signed(seq!['-'] + decimal(n)) == Some(-(n as int)),
        unsigned(seq!['-'] + decimal(n)) is None,
        unsigned(Seq::<char>::empty()) is None && signed(Seq::<char>::empty()) is None,
        signed(signed_decimal(n as int)) == Some(n as int),
        signed(signed_decimal(-(n as int))) == Some(-(n as int)),
{
    law_decimal_reads_back(n);
    let d = decimal(n);
    assert((seq!['+'] + d).skip(1) =~= d);
    assert((seq!['-'] + d).skip(1) =~= d);
    assert(!is_digit((seq!['-'] + d)[0]));
}

/// The digits of a numeral count by tens: one more digit behind a number makes it ten times as much and
/// the digit, and the digits are those from zero to nine.
pub proof fn law_digits_count_by_tens(n: nat, k: nat)
    requires
        k < 10,
    ensures
        n > 0 ==> decimal(10 * n + k) == decimal(n).push((48 + k) as char),
        decimal(k) == seq![(48 + k) as char],
        numeral(decimal(n).push((48 + k) as char)) == 10 * n + k,
{
    law_decimal_reads_back(n);
    assert((10 * n + k) / 10 == n && (10 * n + k) % 10 == k);
    assert(DIGITS@[k as int] == (48 + k) as char);
    let c = (48 + k) as char;
    assert(decimal(n).push(c).drop_last() =~= decimal(n));
    assert(c as int == 48 + k);
}

} // verus!
