//! Byte-level scanning primitives shared by the sentence decoder: digit and
//! hexadecimal classification, bounded search, XOR folding for the checksum,
//! and decimal digit runs.

use vstd::prelude::*;

verus! {

/// `b` is an ASCII decimal digit.
pub open spec fn is_digit(b: u8) -> bool {
    48 <= b && b <= 57
}

/// Numeric value of an ASCII decimal digit.
pub open spec fn digit_val(b: u8) -> nat
    recommends
        is_digit(b),
{
    (b - 48) as nat
}

/// `b` is an ASCII hexadecimal digit, either case.
pub open spec fn is_hex_digit(b: u8) -> bool {
    is_digit(b) || (65 <= b && b <= 70) || (97 <= b && b <= 102)
}

/// Numeric value of an ASCII hexadecimal digit.
pub open spec fn hex_val(b: u8) -> nat
    recommends
        is_hex_digit(b),
{
    if is_digit(b) {
        (b - 48) as nat
    } else if 65 <= b && b <= 70 {
        (b - 55) as nat
    } else {
        (b - 87) as nat
    }
}

/// Index of the first occurrence of `b` in `s[from..to]`, or `to` when there
/// is none (also when the range is empty or reversed).
pub open spec fn find_in(s: Seq<u8>, from: int, to: int, b: u8) -> int
    decreases to - from,
{
    if from >= to {
        to
    } else if s[from] == b {
        from
    } else {
        find_in(s, from + 1, to, b)
    }
}

/// First occurrence of `b` in `s[from..to]`, or `to` when there is none.
pub fn find_byte(s: &[u8], from: usize, to: usize, b: u8) -> (r: usize)
    requires
        to <= s@.len(),
    ensures
        r == find_in(s@, from as int, to as int, b),
        from <= to ==> from <= r <= to,
{
    let mut i: usize = from;
    while i < to
        invariant
            from <= i,
            to <= s@.len(),
            find_in(s@, from as int, to as int, b) == find_in(s@, i as int, to as int, b),
        decreases to - i,
    {
        if s[i] == b {
            return i;
        }
        i += 1;
    }
    to
}

/// XOR of the bytes `s[from..to]` (0 for an empty or reversed range).
pub open spec fn xor_range(s: Seq<u8>, from: int, to: int) -> u8
    decreases to - from,
{
    if from >= to {
        0
    } else {
        xor_range(s, from, to - 1) ^ s[to - 1]
    }
}

/// XOR of the bytes `s[from..to]`.
pub fn xor_bytes(s: &[u8], from: usize, to: usize) -> (r: u8)
    requires
        from <= to <= s@.len(),
    ensures
        r == xor_range(s@, from as int, to as int),
{
    let mut acc: u8 = 0;
    let mut i: usize = from;
    while i < to
        invariant
            from <= i <= to <= s@.len(),
            acc == xor_range(s@, from as int, i as int),
        decreases to - i,
    {
        acc = acc ^ s[i];
        i += 1;
    }
    acc
}

/// Every byte of `s[from..to]` is a decimal digit.
pub open spec fn all_digits(s: Seq<u8>, from: int, to: int) -> bool {
    forall|k: int| from <= k < to ==> is_digit(#[trigger] s[k])
}

/// Check that every byte of `s[from..to]` is a decimal digit.
pub fn check_all_digits(s: &[u8], from: usize, to: usize) -> (r: bool)
    requires
        to <= s@.len(),
    ensures
        r == all_digits(s@, from as int, to as int),
{
    let mut i: usize = from;
    while i < to
        invariant
            from <= i,
            to <= s@.len(),
            all_digits(s@, from as int, i as int),
        decreases to - i,
    {
        if !(48 <= s[i] && s[i] <= 57) {
            return false;
        }
        i += 1;
    }
    true
}

/// Ten to the power `e`.
pub open spec fn pow10(e: nat) -> nat
    decreases e,
{
    if e == 0 {
        1
    } else {
        10 * pow10((e - 1) as nat)
    }
}

pub proof fn lemma_pow10_18()
    ensures
        pow10(18) == 1_000_000_000_000_000_000,
{
    reveal_with_fuel(pow10, 19);
}

pub proof fn lemma_pow10_pos(e: nat)
    ensures
        pow10(e) >= 1,
    decreases e,
{
    if e > 0 {
        lemma_pow10_pos((e - 1) as nat);
    }
}

pub proof fn lemma_pow10_monotone(a: nat, b: nat)
    requires
        a <= b,
    ensures
        pow10(a) <= pow10(b),
        pow10(a) >= 1,
    decreases b - a,
{
    lemma_pow10_pos(a);
    if a < b {
        lemma_pow10_monotone(a, (b - 1) as nat);
        lemma_pow10_pos((b - 1) as nat);
    }
}

pub proof fn lemma_pow10_adds(a: nat, b: nat)
    ensures
        pow10(a + b) == pow10(a) * pow10(b),
    decreases a,
{
    if a == 0 {
        assert(pow10(0 + b) == 1 * pow10(b)) by {
            assert(1 * pow10(b) == pow10(b)) by (nonlinear_arith);
        }
    } else {
        lemma_pow10_adds((a - 1) as nat, b);
        assert((a - 1) + b + 1 == a + b);
        assert(pow10(a + b) == 10 * pow10(((a - 1) + b) as nat));
        assert(10 * (pow10((a - 1) as nat) * pow10(b)) == (10 * pow10((a - 1) as nat)) * pow10(
            b,
        )) by (nonlinear_arith);
    }
}

/// Ten to the power `e`, for scale factors of up to 18 decimal digits.
pub fn pow10_u64(e: u32) -> (r: u64)
    requires
        e <= 18,
    ensures
        r == pow10(e as nat),
{
    proof {
        lemma_pow10_18();
    }
    let mut r: u64 = 1;
    let mut i: u32 = 0;
    while i < e
        invariant
            i <= e <= 18,
            r == pow10(i as nat),
            pow10(18) == 1_000_000_000_000_000_000,
        decreases e - i,
    {
        proof {
            lemma_pow10_monotone((i + 1) as nat, 18);
            assert(pow10((i + 1) as nat) == 10 * pow10(i as nat));
        }
        r = r * 10;
        i += 1;
    }
    r
}

/// Value of the decimal digit run `s[from..to]`, most significant digit first.
pub open spec fn digits_val(s: Seq<u8>, from: int, to: int) -> nat
    decreases to - from,
{
    if from >= to {
        0
    } else {
        digits_val(s, from, to - 1) * 10 + digit_val(s[to - 1])
    }
}

pub proof fn lemma_digits_val_bound(s: Seq<u8>, from: int, to: int)
    requires
        from <= to,
        all_digits(s, from, to),
    ensures
        digits_val(s, from, to) < pow10((to - from) as nat),
    decreases to - from,
{
    if from == to {
    } else {
        lemma_digits_val_bound(s, from, to - 1);
        assert(is_digit(s[to - 1]));
        assert(digit_val(s[to - 1]) <= 9);
        assert(pow10((to - from) as nat) == 10 * pow10((to - from - 1) as nat));
        assert(digits_val(s, from, to - 1) <= pow10((to - from - 1) as nat) - 1);
        assert(digits_val(s, from, to - 1) * 10 <= (pow10((to - from - 1) as nat) - 1) * 10)
            by (nonlinear_arith)
            requires
                digits_val(s, from, to - 1) <= pow10((to - from - 1) as nat) - 1,
        ;
    }
}

/// Value of the decimal digit run `s[from..to]`. The run is limited to 18
/// digits so that the value always fits in a `u64`.
pub fn parse_digits(s: &[u8], from: usize, to: usize) -> (r: u64)
    requires
        from <= to <= s@.len(),
        to - from <= 18,
        all_digits(s@, from as int, to as int),
    ensures
        r == digits_val(s@, from as int, to as int),
        r < pow10((to - from) as nat),
{
    proof {
        lemma_pow10_18();
    }
    let mut acc: u64 = 0;
    let mut i: usize = from;
    while i < to
        invariant
            from <= i <= to <= s@.len(),
            to - from <= 18,
            all_digits(s@, from as int, to as int),
            acc == digits_val(s@, from as int, i as int),
            pow10(18) == 1_000_000_000_000_000_000,
        decreases to - i,
    {
        proof {
            lemma_digits_val_bound(s@, from as int, i as int);
            lemma_pow10_monotone((i - from) as nat, 17);
            lemma_pow10_monotone(17, 18);
            assert(acc < pow10(17)) by {
                assert(pow10((i - from) as nat) <= pow10(17));
            }
            assert(acc * 10 <= (pow10(17) - 1) * 10) by (nonlinear_arith)
                requires
                    acc < pow10(17),
            ;
            assert((pow10(17) - 1) * 10 < pow10(18)) by {
                assert(pow10(18) == 10 * pow10(17));
                assert((pow10(17) - 1) * 10 == 10 * pow10(17) - 10) by (nonlinear_arith);
            }
        }
        acc = acc * 10 + (s[i] - 48) as u64;
        i += 1;
    }
    proof {
        lemma_digits_val_bound(s@, from as int, to as int);
    }
    acc
}

} // verus!
