//! Decimal text of integers, as `Display` writes it, and decimal parsing as
//! `str::parse::<i64>` does it.
use vstd::prelude::*;
use crate::text::push_chars;

verus! {

/// The ASCII digit for `d` in `0..10`.
pub open spec fn digit_char(d: int) -> char {
    ((48 + d) as u8) as char
}

/// Decimal text of a natural number, without leading zeros.
pub open spec fn nat_text(n: nat) -> Seq<char>
    decreases n,
{
    if n < 10 {
        seq![digit_char(n as int)]
    } else {
        nat_text(n / 10).push(digit_char((n % 10) as int))
    }
}

/// Decimal text of an integer, with a leading `-` when negative.
pub open spec fn int_text(i: int) -> Seq<char> {
    if i < 0 {
        seq!['-'] + nat_text((-i) as nat)
    } else {
        nat_text(i as nat)
    }
}

/// `u64::to_string`.
pub fn u64_text(n: u64) -> (r: Vec<char>)
    ensures
        r@ == nat_text(n as nat),
    decreases n,
{
    let d: u8 = (n % 10) as u8;
    let c: char = (48u8 + d) as char;
    if n < 10 {
        let mut v: Vec<char> = Vec::new();
        v.push(c);
        proof {
            assert(v@ =~= seq![digit_char(n as int)]);
        }
        v
    } else {
        let mut v = u64_text(n / 10);
        v.push(c);
        v
    }
}

/// `u128::to_string`.
pub fn u128_text(n: u128) -> (r: Vec<char>)
    ensures
        r@ == nat_text(n as nat),
    decreases n,
{
    let d: u8 = (n % 10) as u8;
    let c: char = (48u8 + d) as char;
    if n < 10 {
        let mut v: Vec<char> = Vec::new();
        v.push(c);
        proof {
            assert(v@ =~= seq![digit_char(n as int)]);
        }
        v
    } else {
        let mut v = u128_text(n / 10);
        v.push(c);
        v
    }
}

/// `usize::to_string`.
pub fn usize_text(n: usize) -> (r: Vec<char>)
    ensures
        r@ == nat_text(n as nat),
{
    u64_text(n as u64)
}

/// `i64::to_string`.
pub fn i64_text(n: i64) -> (r: Vec<char>)
    ensures
        r@ == int_text(n as int),
{
    if n < 0 {
        let m: u64 = (0i128 - (n as i128)) as u64;
        let mut v: Vec<char> = Vec::new();
        v.push('-');
        let t = u64_text(m);
        push_chars(&mut v, &t);
        proof {
            assert(v@ =~= seq!['-'] + nat_text((-n) as nat));
        }
        v
    } else {
        u64_text(n as u64)
    }
}

/// The value of a run of ASCII digits.
pub open spec fn digits_value(d: Seq<char>) -> nat
    decreases d.len(),
{
    if d.len() == 0 {
        0
    } else {
        digits_value(d.drop_last()) * 10 + (d.last() as int - 48) as nat
    }
}

/// Every char is an ASCII digit.
pub open spec fn only_digits(t: Seq<char>) -> bool {
    forall|i: int| 0 <= i < t.len() ==> '0' <= #[trigger] t[i] && t[i] <= '9'
}

/// `str::parse::<i64>`: an optional `+` or `-`, then one or more ASCII digits,
/// whose value fits in `i64`.
pub open spec fn parse_int(t: Seq<char>) -> Option<int> {
    let signed = t.len() > 0 && (t[0] == '-' || t[0] == '+');
    let d = if signed { t.subrange(1, t.len() as int) } else { t };
    let v: int = if signed && t[0] == '-' { -(digits_value(d) as int) } else { digits_value(d) as int };
    if d.len() == 0 || !only_digits(d) || v < i64::MIN || v > i64::MAX {
        None
    } else {
        Some(v)
    }
}

pub open spec fn opt_i64(r: Option<i64>) -> Option<int> {
    match r {
        Some(v) => Some(v as int),
        None => None,
    }
}

/// A longer run of digits is worth at least as much as its prefix.
proof fn lemma_digits_value_prefix(d: Seq<char>, k: int)
    requires
        0 <= k <= d.len(),
        only_digits(d),
    ensures
        digits_value(d.take(k)) <= digits_value(d),
    decreases d.len(),
{
    if k < d.len() {
        assert(d.drop_last().take(k) =~= d.take(k));
        assert(only_digits(d.drop_last()));
        lemma_digits_value_prefix(d.drop_last(), k);
        assert(d.last() == d[d.len() - 1]);
    } else {
        assert(d.take(k) =~= d);
    }
}

/// `str::parse::<i64>`.
pub fn parse_i64(t: &[char]) -> (r: Option<i64>)
    ensures
        opt_i64(r) == parse_int(t@),
{
    let signed = t.len() > 0 && (t[0] == '-' || t[0] == '+');
    let start: usize = if signed { 1 } else { 0 };
    let ghost d = if signed { t@.subrange(1, t@.len() as int) } else { t@ };
    if start >= t.len() {
        return None;
    }
    let bound: u64 = 9223372036854775808;
    let mut acc: u64 = 0;
    let mut i: usize = start;
    while i < t.len()
        invariant
            start <= i <= t.len(),
            signed == (t@.len() > 0 && (t@[0] == '-' || t@[0] == '+')),
            d == (if signed { t@.subrange(1, t@.len() as int) } else { t@ }),
            d == t@.subrange(start as int, t@.len() as int),
            only_digits(d.take(i - start)),
            acc as int == digits_value(d.take(i - start)),
            acc <= bound,
            bound == 9223372036854775808u64,
        decreases t.len() - i,
    {
        let c = t[i];
        if !('0' <= c && c <= '9') {
            assert(d[i - start] == c);
            assert(!only_digits(d));
            return None;
        }
        let digit: u64 = (c as u32 - 48) as u64;
        proof {
            assert(d.take(i - start + 1).drop_last() =~= d.take(i - start));
            assert(d.take(i - start + 1).last() == c);
        }
        if acc > (bound - digit) / 10 {
            proof {
                assert(digit as int == c as int - 48);
                assert(digits_value(d.take(i - start + 1)) == acc * 10 + digit);
                assert(acc * 10 + digit > bound);
                assert(digits_value(d.take(i - start + 1)) > bound);
                if only_digits(d) {
                    lemma_digits_value_prefix(d, i - start + 1);
                }
            }
            return None;
        }
        acc = acc * 10 + digit;
        i = i + 1;
    }
    assert(d.take(i - start) =~= d);
    if signed && t[0] == '-' {
        if acc == bound {
            Some(-9223372036854775807i64 - 1)
        } else {
            Some(-(acc as i64))
        }
    } else if acc == bound {
        None
    } else {
        Some(acc as i64)
    }
}

proof fn lemma_digit_char_injective(a: int, b: int)
    requires
        0 <= a < 10,
        0 <= b < 10,
        digit_char(a) == digit_char(b),
    ensures
        a == b,
{
    assert(digit_char(a) as int == 48 + a);
    assert(digit_char(b) as int == 48 + b);
}

proof fn lemma_nat_text_len(n: nat)
    ensures
        nat_text(n).len() >= 1,
        n >= 10 ==> nat_text(n).len() >= 2,
    decreases n,
{
    if n >= 10 {
        lemma_nat_text_len(n / 10);
    }
}

/// Different numbers have different decimal texts.
pub proof fn lemma_nat_text_injective(a: nat, b: nat)
    requires
        nat_text(a) == nat_text(b),
    ensures
        a == b,
    decreases a,
{
    lemma_nat_text_len(a);
    lemma_nat_text_len(b);
    if a < 10 && b < 10 {
        assert(nat_text(a)[0] == digit_char(a as int));
        assert(nat_text(b)[0] == digit_char(b as int));
        lemma_digit_char_injective(a as int, b as int);
    } else if a >= 10 && b >= 10 {
        assert(nat_text(a).last() == nat_text(b).last());
        assert(nat_text(a) == nat_text(a / 10).push(digit_char((a % 10) as int)));
        assert(nat_text(b) == nat_text(b / 10).push(digit_char((b % 10) as int)));
        assert(nat_text(a).last() == digit_char((a % 10) as int));
        assert(nat_text(b).last() == digit_char((b % 10) as int));
        lemma_digit_char_injective((a % 10) as int, (b % 10) as int);
        assert(nat_text(a).drop_last() =~= nat_text(a / 10));
        assert(nat_text(b).drop_last() =~= nat_text(b / 10));
        lemma_nat_text_injective(a / 10, b / 10);
    }
}

/// `i128::to_string`.
pub fn i128_text(n: i128) -> (r: Vec<char>)
    ensures
        r@ == int_text(n as int),
{
    if n < 0 {
        let m: u128 = if n == i128::MIN {
            0x8000_0000_0000_0000_0000_0000_0000_0000u128
        } else {
            (-n) as u128
        };
        let mut v: Vec<char> = Vec::new();
        v.push('-');
        let t = u128_text(m);
        push_chars(&mut v, &t);
        proof {
            assert(v@ =~= seq!['-'] + nat_text((-n) as nat));
        }
        v
    } else {
        u128_text(n as u128)
    }
}

} // verus!
