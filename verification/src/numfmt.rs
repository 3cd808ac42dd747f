//! Exact integer models of the float arithmetic the summarizer uses for
//! human-readable sizes and token estimates.
//!
//! A `u64` or `usize` converted to `f64` keeps 53 significant bits, rounded to
//! nearest with ties to even; dividing by a power of two is then exact, and
//! `{:.2}` rounds the exact binary value to two decimals, ties to even.  The
//! functions here compute the same digits with integers only.

use vstd::prelude::*;
use crate::text::{decimal, digit_char, push_char, u64_to_decimal};

verus! {

/// `2^n`.
pub open spec fn two_pow(n: nat) -> nat
    decreases n,
{
    if n == 0 {
        1
    } else {
        2 * two_pow((n - 1) as nat)
    }
}

/// Number of binary digits of `x` (0 for 0).
pub open spec fn bit_len(x: nat) -> nat
    decreases x,
{
    if x == 0 {
        0
    } else {
        1 + bit_len(x / 2)
    }
}

/// Integer division rounded to nearest, ties to the even quotient.
pub open spec fn div_round_even(a: nat, b: nat) -> nat
    recommends
        b > 0,
{
    let q = a / b;
    let r = a % b;
    if 2 * r > b || (2 * r == b && q % 2 == 1) {
        q + 1
    } else {
        q
    }
}

/// The value of `x as f64` for a natural number `x`: `x` rounded to 53
/// significant bits, ties to even.
pub open spec fn to_f64_value(x: nat) -> nat {
    let b = bit_len(x);
    if b <= 53 {
        x
    } else {
        let p = two_pow((b - 53) as nat);
        div_round_even(x, p) * p
    }
}

pub proof fn lemma_two_pow_pos(n: nat)
    ensures
        two_pow(n) >= 1,
    decreases n,
{
    if n > 0 {
        lemma_two_pow_pos((n - 1) as nat);
    }
}

pub proof fn lemma_two_pow_adds(a: nat, b: nat)
    ensures
        two_pow(a + b) == two_pow(a) * two_pow(b),
    decreases a,
{
    if a == 0 {
        assert(two_pow(0) == 1);
        assert(a + b == b);
    } else {
        let a1 = (a - 1) as nat;
        lemma_two_pow_adds(a1, b);
        let s = (a + b) as nat;
        assert(two_pow(s) == 2 * two_pow((s - 1) as nat));
        assert((s - 1) as nat == a1 + b);
        assert(two_pow(a) == 2 * two_pow(a1));
        let x = two_pow(a1);
        let y = two_pow(b);
        assert(2 * (x * y) == (2 * x) * y) by (nonlinear_arith);
    }
}

pub proof fn lemma_two_pow_mono(a: nat, b: nat)
    requires
        a <= b,
    ensures
        two_pow(a) <= two_pow(b),
    decreases b,
{
    if a < b {
        lemma_two_pow_mono(a, (b - 1) as nat);
        lemma_two_pow_pos((b - 1) as nat);
    }
}

/// `x < 2^bit_len(x)`, and `bit_len(x) <= n` whenever `x < 2^n`.
pub proof fn lemma_bit_len(x: nat, n: nat)
    ensures
        x < two_pow(bit_len(x)),
        x < two_pow(n) ==> bit_len(x) <= n,
    decreases x,
{
    if x > 0 {
        lemma_bit_len(x / 2, (n - 1) as nat);
        if n == 0 {
            assert(two_pow(0) == 1);
        }
    }
}

pub proof fn lemma_known_pows()
    ensures
        two_pow(10) == 1024,
        two_pow(20) == 1048576,
        two_pow(30) == 1073741824,
        two_pow(53) == 9007199254740992,
        two_pow(64) == 18446744073709551616,
        two_pow(100) == 0x10_0000_0000_0000_0000_0000_0000,
{
    reveal_with_fuel(two_pow, 11);
    assert(two_pow(3) == 8);
    assert(two_pow(6) == 64);
    assert(two_pow(10) == 1024);
    lemma_two_pow_adds(10, 10);
    assert(two_pow(20) == 1048576);
    lemma_two_pow_adds(20, 10);
    assert(two_pow(30) == 1073741824);
    lemma_two_pow_adds(30, 20);
    assert(two_pow(50) == 1125899906842624);
    lemma_two_pow_adds(50, 3);
    assert(two_pow(53) == 9007199254740992);
    lemma_two_pow_adds(30, 30);
    assert(two_pow(60) == 1152921504606846976);
    lemma_two_pow_adds(60, 4);
    assert(two_pow(4) == 16);
    assert(two_pow(64) == 18446744073709551616);
    lemma_two_pow_adds(30, 6);
    assert(two_pow(36) == 68719476736);
    lemma_two_pow_adds(64, 36);
    assert(two_pow(100) == 0x10_0000_0000_0000_0000_0000_0000);
}

/// Values below `2^53` convert to `f64` exactly.
pub proof fn lemma_small_exact(x: nat)
    requires
        x < 9007199254740992,
    ensures
        to_f64_value(x) == x,
{
    lemma_known_pows();
    lemma_bit_len(x, 53);
}

/// `x as f64`, as an integer, for `x < 2^100`.
pub fn f64_value(x: u128) -> (r: u128)
    requires
        x < 0x10_0000_0000_0000_0000_0000_0000,
    ensures
        r == to_f64_value(x as nat),
{
    proof {
        lemma_known_pows();
        assert(two_pow(0) == 1);
    }
    let mut b: u32 = 0;
    let mut t: u128 = x;
    while t > 0
        invariant
            bit_len(x as nat) == b + bit_len(t as nat),
            b <= 100,
            t <= x,
            x < two_pow(100),
            t as nat * two_pow(b as nat) <= x,
        decreases t,
    {
        proof {
            lemma_two_pow_pos(b as nat);
            let pb = two_pow(b as nat);
            assert(pb <= x) by (nonlinear_arith)
                requires t as nat * pb <= x, t >= 1, pb >= 1;
            if b == 100 {
                assert(false);
            }
            assert(two_pow((b + 1) as nat) == 2 * pb);
            assert((t / 2) as nat * (2 * pb) <= x) by (nonlinear_arith)
                requires t as nat * pb <= x, pb >= 1;
        }
        t = t / 2;
        b = b + 1;
    }
    if b <= 53 {
        return x;
    }
    let e: u32 = b - 53;
    let mut p: u128 = 1;
    let mut k: u32 = 0;
    while k < e
        invariant
            k <= e,
            e == b - 53,
            b <= 100,
            p == two_pow(k as nat),
            two_pow(100) == 0x10_0000_0000_0000_0000_0000_0000,
        decreases e - k,
    {
        proof {
            lemma_two_pow_mono((k + 1) as nat, 100);
        }
        p = p * 2;
        k = k + 1;
    }
    proof {
        lemma_two_pow_pos(e as nat);
    }
    let q = x / p;
    let rem = x % p;
    let half = p / 2;
    let q2 = if rem > half || (rem == half && q % 2 == 1) { q + 1 } else { q };
    proof {
        lemma_bit_len(x as nat, 0);
        assert(bit_len(x as nat) == b);
        lemma_two_pow_adds(53, e as nat);
        assert(53 + e == b);
        let pn = two_pow(e as nat);
        assert(q as nat * pn <= x) by (nonlinear_arith)
            requires q == x / p, p == pn, pn > 0;
        assert(q < two_pow(53)) by (nonlinear_arith)
            requires
                q as nat * pn <= x,
                x < two_pow(53) * pn,
                pn > 0,
        ;
        assert(q2 as nat * pn <= two_pow(53) * pn) by (nonlinear_arith)
            requires q2 <= two_pow(53), pn > 0;
        lemma_two_pow_mono(b as nat, 100);
        if e >= 1 {
            assert(two_pow(e as nat) == 2 * two_pow((e - 1) as nat));
            assert(p % 2 == 0);
        }
        assert(2 * rem > p <==> rem > half);
        assert(2 * rem == p <==> rem == half);
    }
    q2 * p
}

/// `{:.2}` of the exact quotient `num / den`: integer part, a point, two digits.
pub open spec fn fixed2(num: nat, den: nat) -> Seq<char> {
    let n = div_round_even(num * 100, den);
    decimal(n / 100) + seq!['.', digit_char((n % 100) / 10), digit_char(n % 10)]
}

/// Renders `num / den` with two decimals, ties to even.
pub fn format_fixed2(num: u128, den: u128) -> (res: String)
    requires
        0 < den < 0x10_0000_0000_0000_0000_0000_0000,
        num < 0x10_0000_0000_0000_0000_0000_0000,
        num / den < u64::MAX,
    ensures
        res@ == fixed2(num as nat, den as nat),
{
    let scaled: u128 = num * 100;
    let q = scaled / den;
    let rem = scaled % den;
    let n: u128 = if 2 * rem > den || (2 * rem == den && q % 2 == 1) { q + 1 } else { q };
    proof {
        let a = num / den;
        assert(q <= a * 100 + 99) by (nonlinear_arith)
            requires q == scaled / den, scaled == num * 100, den > 0, a == num / den;
        assert(n / 100 <= a + 1);
    }
    let int_part: u64 = (n / 100) as u64;
    let mut s = u64_to_decimal(int_part);
    push_char(&mut s, '.');
    let tens: u8 = ((n % 100) / 10) as u8;
    let ones: u8 = (n % 10) as u8;
    push_char(&mut s, (tens + 48) as char);
    push_char(&mut s, (ones + 48) as char);
    s
}


/// How `format_size` and `format_bytes` print a byte count: whole bytes below
/// 1 KiB, otherwise two decimals of KB, MB or GB (powers of 1024).
pub open spec fn size_text(bytes: nat) -> Seq<char> {
    if bytes >= 1073741824 {
        fixed2(to_f64_value(bytes), 1073741824) + seq![' ', 'G', 'B']
    } else if bytes >= 1048576 {
        fixed2(bytes, 1048576) + seq![' ', 'M', 'B']
    } else if bytes >= 1024 {
        fixed2(bytes, 1024) + seq![' ', 'K', 'B']
    } else {
        decimal(bytes) + seq![' ', 'b', 'y', 't', 'e', 's']
    }
}

/// Appends the characters of `t` to `s`.
pub fn push_str(s: &mut String, t: &str)
    ensures
        final(s)@ == old(s)@ + t@,
{
    s.append(t);
}

/// Human-readable byte count.
pub fn size_string(bytes: u64) -> (res: String)
    ensures
        res@ == size_text(bytes as nat),
{
    proof {
        lemma_known_pows();
    }
    if bytes >= 1073741824 {
        let v = f64_value(bytes as u128);
        proof {
            lemma_bit_len(bytes as nat, 64);
            lemma_two_pow_mono(bit_len(bytes as nat), 64);
            lemma_f64_value_bound(bytes as nat);
        }
        let mut s = format_fixed2(v, 1073741824);
        let ghost head = s@;
        push_char(&mut s, ' ');
        push_char(&mut s, 'G');
        push_char(&mut s, 'B');
        assert(s@ == head + seq![' ', 'G', 'B']);
        s
    } else if bytes >= 1048576 {
        let mut s = format_fixed2(bytes as u128, 1048576);
        let ghost head = s@;
        push_char(&mut s, ' ');
        push_char(&mut s, 'M');
        push_char(&mut s, 'B');
        assert(s@ == head + seq![' ', 'M', 'B']);
        s
    } else if bytes >= 1024 {
        let mut s = format_fixed2(bytes as u128, 1024);
        let ghost head = s@;
        push_char(&mut s, ' ');
        push_char(&mut s, 'K');
        push_char(&mut s, 'B');
        assert(s@ == head + seq![' ', 'K', 'B']);
        s
    } else {
        let mut s = u64_to_decimal(bytes);
        let ghost head = s@;
        push_char(&mut s, ' ');
        push_char(&mut s, 'b');
        push_char(&mut s, 'y');
        push_char(&mut s, 't');
        push_char(&mut s, 'e');
        push_char(&mut s, 's');
        assert(s@ == head + seq![' ', 'b', 'y', 't', 'e', 's']);
        s
    }
}

/// Rounding to 53 significant bits never exceeds the next power of two
/// above the value.
pub proof fn lemma_f64_value_bound(x: nat)
    ensures
        to_f64_value(x) <= two_pow(bit_len(x)),
{
    lemma_bit_len(x, 0);
    let b = bit_len(x);
    if b > 53 {
        let e = (b - 53) as nat;
        let p = two_pow(e);
        lemma_two_pow_pos(e);
        lemma_two_pow_adds(53, e);
        let q = x / p;
        assert(q * p <= x) by (nonlinear_arith)
            requires q == x / p, p > 0;
        assert(q < two_pow(53)) by (nonlinear_arith)
            requires q * p <= x, x < two_pow(53) * p, p > 0;
        let q2 = div_round_even(x, p);
        assert(q2 <= two_pow(53));
        assert(q2 * p <= two_pow(53) * p) by (nonlinear_arith)
            requires q2 <= two_pow(53), p > 0;
    }
}

/// Tokens reserved for a summary of `words` words: `ceil(words * 1.5)`
/// evaluated in `f64` and converted back with `as usize` (which saturates).
pub open spec fn token_estimate(words: nat) -> nat {
    let exact_half_units = to_f64_value(3 * to_f64_value(words));
    let rounded_up = (exact_half_units + 1) / 2;
    if rounded_up > usize::MAX {
        usize::MAX as nat
    } else {
        rounded_up
    }
}

} // verus!
