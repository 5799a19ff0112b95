//! Writing numbers as text: decimal and lower-case hexadecimal, as the
//! `Display` and `LowerHex` formats write them.

use vstd::prelude::*;

verus! {

pub open spec fn digit_char(d: nat) -> char {
    if d < 10 {
        (('0' as u32) + d) as char
    } else {
        (('a' as u32) + (d - 10)) as char
    }
}

/// The digits of `n` in base `b`, most significant first, without leading
/// zeros (`0` is written as one digit).
pub open spec fn digits(n: nat, b: nat) -> Seq<char>
    recommends
        b >= 2,
    decreases n,
    when b >= 2
{
    if n < b {
        seq![digit_char(n)]
    } else {
        proof {
            vstd::arithmetic::div_mod::lemma_div_decreases(n as int, b as int);
        }
        digits(n / b, b).push(digit_char(n % b))
    }
}

proof fn lemma_digit_char_code(d: nat)
    requires
        d < 16,
    ensures
        digit_char(d) as u32 == if d < 10 { 48 + d } else { 87 + d },
        digit_char(d) != '-',
{
}

proof fn lemma_digits_len(n: nat, b: nat)
    requires
        2 <= b,
    ensures
        digits(n, b).len() >= 1,
        n < b <==> digits(n, b).len() == 1,
    decreases n,
{
    if n >= b {
        vstd::arithmetic::div_mod::lemma_div_decreases(n as int, b as int);
        lemma_digits_len(n / b, b);
    }
}

/// No digit is a `-`.
pub proof fn lemma_digits_no_dash(n: nat, b: nat)
    requires
        2 <= b <= 16,
    ensures
        forall|i: int| 0 <= i < digits(n, b).len() ==> digits(n, b)[i] != '-',
    decreases n,
{
    if n < b {
        lemma_digit_char_code(n);
        assert(digits(n, b) == seq![digit_char(n)]);
    } else {
        vstd::arithmetic::div_mod::lemma_div_decreases(n as int, b as int);
        vstd::arithmetic::div_mod::lemma_mod_bound(n as int, b as int);
        lemma_digits_no_dash(n / b, b);
        lemma_digit_char_code(n % b);
        assert(digits(n, b) == digits(n / b, b).push(digit_char(n % b)));
    }
}

/// Different numbers have different digits.
pub proof fn lemma_digits_injective(n: nat, m: nat, b: nat)
    requires
        2 <= b <= 16,
        digits(n, b) == digits(m, b),
    ensures
        n == m,
    decreases n,
{
    lemma_digits_len(n, b);
    lemma_digits_len(m, b);
    if n < b {
        assert(m < b);
        lemma_digit_char_code(n);
        lemma_digit_char_code(m);
        assert(digits(n, b) == seq![digit_char(n)]);
        assert(digits(m, b) == seq![digit_char(m)]);
        assert(seq![digit_char(n)][0] == digit_char(n));
        assert(seq![digit_char(m)][0] == digit_char(m));
        assert(digit_char(n) == digit_char(m));
        assert(digit_char(n) as u32 == digit_char(m) as u32);
        assert(n == m);
    } else {
        assert(m >= b);
        vstd::arithmetic::div_mod::lemma_div_decreases(n as int, b as int);
        vstd::arithmetic::div_mod::lemma_mod_bound(n as int, b as int);
        vstd::arithmetic::div_mod::lemma_mod_bound(m as int, b as int);
        let dn = digits(n, b);
        let dm = digits(m, b);
        assert(dn == digits(n / b, b).push(digit_char(n % b)));
        assert(dm == digits(m / b, b).push(digit_char(m % b)));
        assert(dn.last() == dm.last());
        lemma_digit_char_code(n % b);
        lemma_digit_char_code(m % b);
        assert(n % b == m % b);
        assert(dn.drop_last() =~= digits(n / b, b));
        assert(dm.drop_last() =~= digits(m / b, b));
        lemma_digits_injective(n / b, m / b, b);
        vstd::arithmetic::div_mod::lemma_fundamental_div_mod(n as int, b as int);
        vstd::arithmetic::div_mod::lemma_fundamental_div_mod(m as int, b as int);
        assert(n / b == m / b);
        assert(n == m);
    }
}

/// A signed integer in decimal, with `-` before negative numbers.
pub open spec fn decimal_text(v: int) -> Seq<char> {
    if v < 0 {
        seq!['-'] + digits((-v) as nat, 10)
    } else {
        digits(v as nat, 10)
    }
}

/// Calls `String::push`. Claimed: the character is appended.
#[verifier::external_body]
pub(crate) fn push_char(s: &mut String, c: char)
    ensures
        final(s)@ == old(s)@.push(c),
{
    s.push(c)
}

fn digit(d: u64) -> (c: char)
    requires
        d < 16,
    ensures
        c == digit_char(d as nat),
{
    let u: u32 = if d < 10 { 48 + d as u32 } else { 97 + (d as u32 - 10) };
    proof {
        assert(u < 128);
    }
    char_from(u)
}

/// The character of an ASCII code.
fn char_from(u: u32) -> (c: char)
    requires
        u < 128,
    ensures
        c as u32 == u,
{
    let b: u8 = u as u8;
    b as char
}

/// Appends the digits of `n` in base `b`.
pub fn push_digits(s: &mut String, n: u64, b: u64)
    requires
        b == 10 || b == 16,
    ensures
        final(s)@ == old(s)@ + digits(n as nat, b as nat),
    decreases n,
{
    if n >= b {
        push_digits(s, n / b, b);
    }
    push_char(s, digit(n % b));
    assert(final(s)@ =~= old(s)@ + digits(n as nat, b as nat));
}

/// `v` in decimal.
pub fn decimal_i64(v: i64) -> (s: String)
    ensures
        s@ == decimal_text(v as int),
{
    let mut s = String::new();
    if v < 0 {
        push_char(&mut s, '-');
        let m: u64 = (0i128 - (v as i128)) as u64;
        push_digits(&mut s, m, 10);
    } else {
        push_digits(&mut s, v as u64, 10);
    }
    assert(s@ =~= decimal_text(v as int));
    s
}

/// `v` in decimal.
pub fn decimal_u64(v: u64) -> (s: String)
    ensures
        s@ == digits(v as nat, 10),
{
    let mut s = String::new();
    push_digits(&mut s, v, 10);
    assert(s@ =~= digits(v as nat, 10));
    s
}

/// `v` in lower-case hexadecimal.
pub fn hex_u64(v: u64) -> (s: String)
    ensures
        s@ == digits(v as nat, 16),
{
    let mut s = String::new();
    push_digits(&mut s, v, 16);
    assert(s@ =~= digits(v as nat, 16));
    s
}

} // verus!
