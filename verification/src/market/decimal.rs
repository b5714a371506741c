//! Number texts as sent by exchanges ("123.45", "-1e-3", "+.5"), read into
//! decimal codes: integers that stand for the numbers, in the same order, so
//! that prices can be ordered and found again by them.
use vstd::prelude::*;
use vstd::arithmetic::div_mod::{lemma_fundamental_div_mod_converse_div, lemma_fundamental_div_mod_converse_mod};
use vstd::arithmetic::mul::{lemma_mul_is_associative, lemma_mul_is_commutative};
use vstd::string::*;
use crate::text::{chars_of, i64_text, int_text, nat_text, u64_text};

verus! {

/// Number of significant digits a decimal code keeps.
pub const SIGNIFICANT_DIGITS: usize = 19;

/// Ten to the power [`SIGNIFICANT_DIGITS`].
pub const SIGNIFICAND_LIMIT: u128 = 10_000_000_000_000_000_000;

/// The smallest decimal exponent a code holds; smaller numbers are zero.
pub const EXP_MIN: i128 = -1_000_000_000;

/// The largest decimal exponent a code holds; larger numbers have no code.
pub const EXP_MAX: i128 = 1_000_000_000;

/// Exponents whose size passes this are read only as "too large".
pub const EXPONENT_CAP: u128 = 1_000_000_000_000_000_000_000_000_000_000;

pub open spec fn is_digit(c: char) -> bool {
    '0' <= c && c <= '9'
}

pub open spec fn digit_value(c: char) -> nat {
    ((c as u32) - ('0' as u32)) as nat
}

pub open spec fn all_digits(s: Seq<char>) -> bool {
    forall|i: int| 0 <= i < s.len() ==> is_digit(#[trigger] s[i])
}

/// The number that the decimal digits `s` spell.
pub open spec fn digits_value(s: Seq<char>) -> nat
    decreases s.len(),
{
    if s.len() == 0 {
        0
    } else {
        digits_value(s.drop_last()) * 10 + digit_value(s.last())
    }
}

pub open spec fn pow_ten(n: nat) -> nat
    decreases n,
{
    if n == 0 {
        1
    } else {
        10 * pow_ten((n - 1) as nat)
    }
}

/// The end of the run of digits of `s` that starts at `i`.
pub open spec fn digits_end(s: Seq<char>, i: int) -> int
    decreases s.len() - i,
{
    if 0 <= i < s.len() && is_digit(s[i]) {
        digits_end(s, i + 1)
    } else {
        i
    }
}

/// The pieces of a number text: its sign, its digits before and after the
/// point taken together, how many of them follow the point, and its
/// exponent.
pub struct NumberParts {
    pub negative: bool,
    pub digits: Seq<char>,
    pub frac_len: nat,
    pub exp: int,
}

pub open spec fn is_sign(c: char) -> bool {
    c == '+' || c == '-'
}

/// The pieces of a number text written as Rust's float syntax writes
/// numbers: an optional sign, digits with an optional point (at least one
/// digit in all), and an optional exponent `e` or `E` with an optional sign
/// and at least one digit. `None` for any other text (`inf` and `nan`
/// among them).
pub open spec fn number_parts(s: Seq<char>) -> Option<NumberParts> {
    let i0: int = if s.len() > 0 && is_sign(s[0]) { 1 } else { 0 };
    let i1 = digits_end(s, i0);
    let i2 = if i1 < s.len() && s[i1] == '.' { i1 + 1 } else { i1 };
    let i3 = if i2 > i1 { digits_end(s, i2) } else { i2 };
    let negative = i0 == 1 && s[0] == '-';
    let digits = s.subrange(i0, i1) + s.subrange(i2, i3);
    if (i1 - i0) + (i3 - i2) == 0 {
        None
    } else if i3 == s.len() {
        Some(NumberParts { negative, digits, frac_len: (i3 - i2) as nat, exp: 0 })
    } else if s[i3] == 'e' || s[i3] == 'E' {
        let j = if i3 + 1 < s.len() && is_sign(s[i3 + 1]) { i3 + 2 } else { i3 + 1 };
        let k = digits_end(s, j);
        if k == s.len() && k > j {
            let e = digits_value(s.subrange(j, k)) as int;
            Some(
                NumberParts {
                    negative,
                    digits,
                    frac_len: (i3 - i2) as nat,
                    exp: if j == i3 + 2 && s[i3 + 1] == '-' { -e } else { e },
                },
            )
        } else {
            None
        }
    } else {
        None
    }
}

/// The number of digits of a positive whole number.
pub open spec fn num_digits(m: nat) -> nat
    decreases m,
{
    if m < 10 {
        1
    } else {
        1 + num_digits(m / 10)
    }
}

/// The positive number `mv * 10^r` cut to [`SIGNIFICANT_DIGITS`]
/// significant digits (the others dropped): `(m, q)` with `m * 10^q` that
/// number and `10^18 <= m < 10^19`.
pub open spec fn normalized(mv: nat, r: int) -> (nat, int) {
    let l = num_digits(mv);
    if l >= 19 {
        (mv / pow_ten((l - 19) as nat), r + l - 19)
    } else {
        (mv * pow_ten((19 - l) as nat), r - (19 - l))
    }
}

/// The code of the number `m * 10^q` with `10^18 <= m < 10^19` and
/// `EXP_MIN <= q`, or of its negative: the exponent above `EXP_MIN` times
/// `10^19`, plus `m`, with the number's sign. Zero has code 0.
pub open spec fn dec_code(negative: bool, m: nat, q: int) -> int {
    let c = (q - EXP_MIN) * (SIGNIFICAND_LIMIT as int) + m;
    if negative {
        -c
    } else {
        c
    }
}

/// The code of the number with digits `digits`, `frac_len` of them after
/// the point, exponent `e` and the given sign: 0 when it is zero or its
/// exponent is below [`EXP_MIN`]; `None` when its exponent passes
/// [`EXP_MAX`].
pub open spec fn code_result(negative: bool, digits: Seq<char>, frac_len: nat, e: int) -> Option<int> {
    let mv = digits_value(digits);
    if mv == 0 {
        Some(0)
    } else {
        let (m, q) = normalized(mv, e - frac_len);
        if q > EXP_MAX {
            None
        } else if q < EXP_MIN {
            Some(0)
        } else {
            Some(dec_code(negative, m, q))
        }
    }
}

/// The code of a number text in Rust's float syntax; `None` for any other
/// text (`inf` and `nan` among them) and for numbers too large for a code.
pub open spec fn number_code(s: Seq<char>) -> Option<int> {
    match number_parts(s) {
        Some(p) => code_result(p.negative, p.digits, p.frac_len, p.exp),
        None => None,
    }
}

/// [`number_code`] as an `i128`, which holds every code.
pub open spec fn decimal_spec(s: Seq<char>) -> Option<i128> {
    match number_code(s) {
        Some(c) => Some(c as i128),
        None => None,
    }
}

proof fn lemma_digits_prefix_monotone(s: Seq<char>, k: int)
    requires
        0 <= k <= s.len(),
    ensures
        digits_value(s.subrange(0, k)) <= digits_value(s),
    decreases s.len() - k,
{
    if k < s.len() {
        lemma_digits_prefix_monotone(s, k + 1);
        assert(s.subrange(0, k + 1).drop_last() =~= s.subrange(0, k));
    } else {
        assert(s.subrange(0, k) =~= s);
    }
}

proof fn lemma_pow_pos(n: nat)
    ensures
        pow_ten(n) >= 1,
    decreases n,
{
    if n > 0 {
        lemma_pow_pos((n - 1) as nat);
    }
}

proof fn lemma_pow_monotone(a: nat, b: nat)
    requires
        a <= b,
    ensures
        pow_ten(a) <= pow_ten(b),
    decreases b,
{
    if a < b {
        lemma_pow_monotone(a, (b - 1) as nat);
        lemma_pow_pos((b - 1) as nat);
    }
}

/// A text of zeros spells zero.
proof fn lemma_zeros_value(s: Seq<char>)
    requires
        forall|i: int| 0 <= i < s.len() ==> s[i] == '0',
    ensures
        digits_value(s) == 0,
    decreases s.len(),
{
    if s.len() > 0 {
        lemma_zeros_value(s.drop_last());
    }
}

/// Leading zeros do not change the value of digits.
proof fn lemma_leading_zeros(s: Seq<char>, a: int)
    requires
        0 <= a <= s.len(),
        forall|i: int| 0 <= i < a ==> s[i] == '0',
    ensures
        digits_value(s) == digits_value(s.subrange(a, s.len() as int)),
    decreases s.len(),
{
    if a == s.len() {
        lemma_zeros_value(s);
    } else {
        lemma_leading_zeros(s.drop_last(), a);
        assert(s.subrange(a, s.len() as int).drop_last() =~= s.drop_last().subrange(a, s.len() - 1));
    }
}

/// Digits spell less than ten to the power of their count, and at least
/// ten to the power of one less when the first is not zero.
proof fn lemma_digits_bounds(s: Seq<char>)
    requires
        all_digits(s),
    ensures
        digits_value(s) < pow_ten(s.len()),
        s.len() > 0 && s[0] != '0' ==> digits_value(s) >= pow_ten((s.len() - 1) as nat),
    decreases s.len(),
{
    if s.len() > 0 {
        let init = s.drop_last();
        lemma_digits_bounds(init);
        assert(is_digit(s[s.len() - 1]));
        let d = digit_value(s.last());
        assert(d <= 9);
        let x = digits_value(init);
        let p = pow_ten(init.len());
        assert(x * 10 + d < p * 10) by (nonlinear_arith)
            requires
                x < p,
                d <= 9,
        ;
        if s.len() > 1 && s[0] != '0' {
            assert(init[0] == s[0]);
            let q = pow_ten((init.len() - 1) as nat);
            assert(x * 10 >= q * 10) by (nonlinear_arith)
                requires
                    x >= q,
            ;
        }
        if s.len() == 1 && s[0] != '0' {
            assert(s.last() == s[0]);
            assert(x == 0) by {
                assert(init.len() == 0);
            }
        }
    }
}

/// The end of a digit run is found by stepping over its digits.
fn scan_digits(cs: &Vec<char>, from: usize) -> (res: usize)
    requires
        from <= cs@.len(),
    ensures
        from <= res <= cs@.len(),
        res == digits_end(cs@, from as int),
        all_digits(cs@.subrange(from as int, res as int)),
{
    let mut i = from;
    while i < cs.len() && '0' <= cs[i] && cs[i] <= '9'
        invariant
            from <= i <= cs@.len(),
            digits_end(cs@, from as int) == digits_end(cs@, i as int),
            all_digits(cs@.subrange(from as int, i as int)),
        decreases cs.len() - i,
    {
        proof {
            assert(cs@.subrange(from as int, i + 1) =~= cs@.subrange(from as int, i as int).push(cs@[i as int]));
        }
        i = i + 1;
    }
    i
}

/// Reads the digits `cs[from..to]`, or reports that they spell more than
/// [`EXPONENT_CAP`].
fn read_capped(cs: &Vec<char>, from: usize, to: usize) -> (res: (u128, bool))
    requires
        from <= to <= cs@.len(),
        all_digits(cs@.subrange(from as int, to as int)),
    ensures
        res.1 ==> digits_value(cs@.subrange(from as int, to as int)) > EXPONENT_CAP,
        !res.1 ==> res.0 == digits_value(cs@.subrange(from as int, to as int)) && res.0 <= EXPONENT_CAP,
{
    let ghost s = cs@.subrange(from as int, to as int);
    let mut acc: u128 = 0;
    let mut i: usize = from;
    while i < to
        invariant
            from <= i <= to <= cs@.len(),
            s == cs@.subrange(from as int, to as int),
            all_digits(s),
            acc == digits_value(cs@.subrange(from as int, i as int)),
            acc <= EXPONENT_CAP,
        decreases to - i,
    {
        let c = cs[i];
        proof {
            assert(cs@.subrange(from as int, i + 1).drop_last() =~= cs@.subrange(from as int, i as int));
            assert(cs@.subrange(from as int, i + 1) =~= s.subrange(0, i + 1 - from));
            assert(s[i - from] == c);
        }
        let d = (c as u32) - ('0' as u32);
        acc = acc * 10 + (d as u128);
        if acc > EXPONENT_CAP {
            proof {
                lemma_digits_prefix_monotone(s, i + 1 - from);
            }
            return (0, true);
        }
        i = i + 1;
    }
    proof {
        assert(cs@.subrange(from as int, i as int) =~= s);
    }
    (acc, false)
}

/// The digits `cs[i0..i1]` followed by the digits `cs[i2..i3]`.
fn collect_digits(cs: &Vec<char>, i0: usize, i1: usize, i2: usize, i3: usize) -> (res: Vec<char>)
    requires
        i0 <= i1 <= i2 <= i3 <= cs@.len(),
        all_digits(cs@.subrange(i0 as int, i1 as int)),
        all_digits(cs@.subrange(i2 as int, i3 as int)),
    ensures
        res@ == cs@.subrange(i0 as int, i1 as int) + cs@.subrange(i2 as int, i3 as int),
        all_digits(res@),
{
    let mut d: Vec<char> = Vec::new();
    let mut i = i0;
    while i < i1
        invariant
            i0 <= i <= i1 <= cs@.len(),
            d@ == cs@.subrange(i0 as int, i as int),
        decreases i1 - i,
    {
        d.push(cs[i]);
        i = i + 1;
    }
    let mut i = i2;
    while i < i3
        invariant
            i0 <= i1 <= i2 <= i <= i3 <= cs@.len(),
            d@ == cs@.subrange(i0 as int, i1 as int) + cs@.subrange(i2 as int, i as int),
        decreases i3 - i,
    {
        d.push(cs[i]);
        i = i + 1;
    }
    let ghost l1 = i1 - i0;
    assert forall|x: int| 0 <= x < d@.len() implies is_digit(#[trigger] d@[x]) by {
        if x < l1 {
            assert(d@[x] == cs@.subrange(i0 as int, i1 as int)[x]);
        } else {
            assert(d@[x] == cs@.subrange(i2 as int, i3 as int)[x - l1]);
        }
    }
    d
}

/// Digits split in two: the first part shifted left, plus the second.
proof fn lemma_digits_split(s: Seq<char>, k: int)
    requires
        0 <= k <= s.len(),
    ensures
        digits_value(s) == digits_value(s.subrange(0, k)) * pow_ten((s.len() - k) as nat) + digits_value(
            s.subrange(k, s.len() as int),
        ),
    decreases s.len(),
{
    if k == s.len() {
        assert(s.subrange(0, k) =~= s);
        assert(s.subrange(k, s.len() as int) =~= Seq::<char>::empty());
        assert(pow_ten(0) == 1);
        assert(digits_value(s) * 1 == digits_value(s));
    } else {
        let init = s.drop_last();
        lemma_digits_split(init, k);
        assert(init.subrange(0, k) =~= s.subrange(0, k));
        assert(s.subrange(k, s.len() as int).drop_last() =~= init.subrange(k, init.len() as int));
        assert(s.subrange(k, s.len() as int).last() == s.last());
        let x = digits_value(s.subrange(0, k)) as int;
        let p = pow_ten((init.len() - k) as nat) as int;
        let y = digits_value(init.subrange(k, init.len() as int)) as int;
        let d = digit_value(s.last()) as int;
        assert(pow_ten((s.len() - k) as nat) == 10 * p);
        assert((x * p + y) * 10 + d == x * (10 * p) + (y * 10 + d)) by (nonlinear_arith);
    }
}

/// A positive number between `10^(l-1)` and `10^l` has `l` digits.
proof fn lemma_num_digits(mv: nat, l: nat)
    requires
        l >= 1,
        pow_ten((l - 1) as nat) <= mv < pow_ten(l),
    ensures
        num_digits(mv) == l,
    decreases l,
{
    if l == 1 {
        assert(pow_ten(1) == 10);
    } else {
        let p = pow_ten((l - 2) as nat);
        assert(pow_ten((l - 1) as nat) == 10 * p);
        assert(pow_ten(l) == 10 * (10 * p));
        lemma_pow_pos((l - 2) as nat);
        assert(mv >= 10);
        assert(p <= mv / 10 < 10 * p) by (nonlinear_arith)
            requires
                10 * p <= mv < 10 * (10 * p),
                p >= 1,
        ;
        lemma_num_digits(mv / 10, (l - 1) as nat);
    }
}

/// Reads the digits `d[a..z]`, fewer than twenty of them.
fn read_few(d: &Vec<char>, a: usize, z: usize) -> (res: u128)
    requires
        a <= z <= d@.len(),
        z - a <= 19,
        all_digits(d@.subrange(a as int, z as int)),
    ensures
        res == digits_value(d@.subrange(a as int, z as int)),
        res < pow_ten((z - a) as nat),
{
    let ghost s = d@.subrange(a as int, z as int);
    let mut acc: u128 = 0;
    let mut i: usize = a;
    proof {
        lemma_pow_monotone((z - a) as nat, 19);
        reveal_with_fuel(pow_ten, 20);
    }
    while i < z
        invariant
            a <= i <= z <= d@.len(),
            z - a <= 19,
            s == d@.subrange(a as int, z as int),
            all_digits(s),
            acc == digits_value(d@.subrange(a as int, i as int)),
            acc < pow_ten((i - a) as nat),
            pow_ten((z - a) as nat) <= 10_000_000_000_000_000_000,
        decreases z - i,
    {
        let c = d[i];
        proof {
            assert(d@.subrange(a as int, i + 1).drop_last() =~= d@.subrange(a as int, i as int));
            assert(d@.subrange(a as int, i + 1) =~= s.subrange(0, i + 1 - a));
            assert(s[i - a] == c);
            lemma_pow_monotone((i + 1 - a) as nat, (z - a) as nat);
            assert(pow_ten((i + 1 - a) as nat) == 10 * pow_ten((i - a) as nat));
        }
        let dg = (c as u32) - ('0' as u32);
        acc = acc * 10 + (dg as u128);
        i = i + 1;
    }
    proof {
        assert(d@.subrange(a as int, i as int) =~= s);
    }
    acc
}

/// The [`SIGNIFICANT_DIGITS`] first digits of the positive number spelled by
/// `d[a..]`, which starts with a digit that is not zero; zeros are added
/// when there are fewer.
fn significand(d: &Vec<char>, a: usize) -> (res: u128)
    requires
        a < d@.len(),
        all_digits(d@.subrange(a as int, d@.len() as int)),
        d@[a as int] != '0',
    ensures
        res == normalized(digits_value(d@.subrange(a as int, d@.len() as int)), 0).0,
        res < SIGNIFICAND_LIMIT,
{
    let dn = d.len();
    let ln = dn - a;
    let ghost sig = d@.subrange(a as int, dn as int);
    let ghost mv = digits_value(sig);
    proof {
        assert(sig[0] == d@[a as int]);
        lemma_digits_bounds(sig);
        lemma_num_digits(mv, ln as nat);
    }
    let m: u128 = if ln >= 19 {
        let v = read_few(d, a, a + 19);
        proof {
            assert(sig.subrange(0, 19) =~= d@.subrange(a as int, a + 19));
            lemma_digits_split(sig, 19);
            lemma_pow_pos((ln - 19) as nat);
            let rest = sig.subrange(19, sig.len() as int);
            assert(all_digits(rest));
            lemma_digits_bounds(rest);
            assert(rest.len() == ln - 19);
            assert(mv == v * pow_ten((ln - 19) as nat) + digits_value(rest));
            lemma_fundamental_div_mod_converse_div(
                mv as int,
                pow_ten((ln - 19) as nat) as int,
                v as int,
                digits_value(rest) as int,
            );
        }
        v
    } else {
        let v = read_few(d, a, dn);
        let k = 19 - ln;
        let mut w: u128 = v;
        let mut r: usize = 0;
        proof {
            assert(pow_ten(0) == 1);
            assert(v * 1 == v);
            reveal_with_fuel(pow_ten, 20);
        }
        while r < k
            invariant
                r <= k,
                k + ln == 19,
                v == mv,
                v < pow_ten(ln as nat),
                w == v * pow_ten(r as nat),
                w < pow_ten((ln + r) as nat),
                pow_ten(19) == 10_000_000_000_000_000_000,
            decreases k - r,
        {
            proof {
                lemma_pow_monotone((ln + r + 1) as nat, 19);
                assert(pow_ten((ln + r + 1) as nat) == 10 * pow_ten((ln + r) as nat));
                assert(pow_ten((r + 1) as nat) == 10 * pow_ten(r as nat));
                lemma_mul_is_associative(v as int, 10, pow_ten(r as nat) as int);
                lemma_mul_is_commutative(v as int, 10);
                lemma_mul_is_associative(10, v as int, pow_ten(r as nat) as int);
            }
            w = w * 10;
            r = r + 1;
        }
        w
    };
    assert(m < SIGNIFICAND_LIMIT) by {
        reveal_with_fuel(pow_ten, 20);
    }
    m
}

/// The code of a number from its digits, the count of them that follow the
/// point, its exponent (exactly, or only its sign when its size passes
/// [`EXPONENT_CAP`]) and its sign (see [`code_result`]).
fn code_of(
    d: &Vec<char>,
    negative: bool,
    frac_len: usize,
    exp_neg: bool,
    exp_mag: u128,
    exp_big: bool,
    Ghost(e): Ghost<int>,
) -> (res: Option<i128>)
    requires
        all_digits(d@),
        frac_len <= d@.len(),
        !exp_big ==> exp_mag <= EXPONENT_CAP && e == (if exp_neg { -(exp_mag as int) } else { exp_mag as int }),
        exp_big ==> (if exp_neg { e < -(EXPONENT_CAP as int) } else { e > EXPONENT_CAP }),
    ensures
        match res {
            Some(c) => code_result(negative, d@, frac_len as nat, e) == Some(c as int) && -CODE_BOUND <= c
                <= CODE_BOUND,
            None => code_result(negative, d@, frac_len as nat, e) is None,
        },
{
    let dn = d.len();
    // the first digit that is not zero
    let mut a: usize = 0;
    while a < dn && d[a] == '0'
        invariant
            a <= dn == d@.len(),
            forall|x: int| 0 <= x < a ==> d@[x] == '0',
        decreases dn - a,
    {
        a = a + 1;
    }
    proof {
        lemma_leading_zeros(d@, a as int);
    }
    if a == dn {
        proof {
            assert(d@.subrange(a as int, dn as int) =~= Seq::<char>::empty());
        }
        return Some(0);
    }
    let ghost sig = d@.subrange(a as int, dn as int);
    let ghost mv = digits_value(d@);
    let ln = dn - a;
    proof {
        assert(all_digits(sig));
        assert(sig[0] == d@[a as int]);
        lemma_digits_bounds(sig);
        lemma_num_digits(mv, ln as nat);
    }
    let ghost nq = normalized(mv, e - frac_len);
    // the exponent of the code
    if exp_big {
        if exp_neg {
            return Some(0);
        } else {
            return None;
        }
    }
    let q: i128 = (if exp_neg {
        -(exp_mag as i128)
    } else {
        exp_mag as i128
    }) - (frac_len as i128) + (ln as i128) - 19;
    assert(q == nq.1);
    if q > EXP_MAX {
        return None;
    }
    if q < EXP_MIN {
        return Some(0);
    }
    // the significand
    let m = significand(d, a);
    proof {
        assert(d@.subrange(a as int, d@.len() as int) == sig);
    }
    assert(m == nq.0);
    assert(m < SIGNIFICAND_LIMIT) by {
        reveal_with_fuel(pow_ten, 20);
    }
    assert(0 <= (q - EXP_MIN) * (SIGNIFICAND_LIMIT as i128) <= (EXP_MAX - EXP_MIN) * (SIGNIFICAND_LIMIT as i128))
        by (nonlinear_arith)
        requires
            0 <= q - EXP_MIN <= EXP_MAX - EXP_MIN,
    ;
    let c: i128 = (q - EXP_MIN) * (SIGNIFICAND_LIMIT as i128) + (m as i128);
    if negative {
        Some(-c)
    } else {
        Some(c)
    }
}

proof fn lemma_decimal_spec_parts(s: Seq<char>)
    ensures
        number_parts(s) matches Some(p) ==> number_code(s) == code_result(p.negative, p.digits, p.frac_len, p.exp),
        number_parts(s) is None ==> number_code(s) is None,
{
}

/// Reads a number text into its code (see [`number_code`]).
#[verifier::rlimit(40)]
pub fn parse_decimal(s: &str) -> (res: Option<i128>)
    ensures
        res == decimal_spec(s@),
        match res {
            Some(c) => number_code(s@) == Some(c as int) && -CODE_BOUND <= c <= CODE_BOUND,
            None => number_code(s@) is None,
        },
{
    let cs = chars_of(s);
    let n = cs.len();
    let ghost sv = s@;
    assert(cs@ == sv);
    proof {
        lemma_decimal_spec_parts(sv);
    }
    let i0: usize = if n > 0 && (cs[0] == '+' || cs[0] == '-') { 1 } else { 0 };
    let negative = i0 == 1 && cs[0] == '-';
    let i1 = scan_digits(&cs, i0);
    let i2: usize = if i1 < n && cs[i1] == '.' { i1 + 1 } else { i1 };
    let i3: usize = if i2 > i1 { scan_digits(&cs, i2) } else { i2 };
    if (i1 - i0) + (i3 - i2) == 0 {
        return None;
    }
    proof {
        if i2 == i1 {
            assert(cs@.subrange(i2 as int, i3 as int) =~= Seq::<char>::empty());
        }
    }
    let mut exp_neg = false;
    let mut exp_mag: u128 = 0;
    let mut exp_big = false;
    let ghost mut e: int = 0;
    if i3 < n {
        if !(cs[i3] == 'e' || cs[i3] == 'E') {
            return None;
        }
        let mut j = i3 + 1;
        if j < n && (cs[j] == '+' || cs[j] == '-') {
            exp_neg = cs[j] == '-';
            j = j + 1;
        }
        let k = scan_digits(&cs, j);
        if !(k == n && k > j) {
            return None;
        }
        let (m, big) = read_capped(&cs, j, k);
        exp_mag = m;
        exp_big = big;
        proof {
            let ev = digits_value(sv.subrange(j as int, k as int)) as int;
            e = if exp_neg { -ev } else { ev };
        }
    }
    let ghost parts = number_parts(sv);
    assert(parts is Some);
    let ghost p = parts->0;
    assert(p.negative == negative);
    assert(p.frac_len == i3 - i2);
    assert(p.exp == e);
    let d = collect_digits(&cs, i0, i1, i2, i3);
    assert(d@ == p.digits);
    code_of(&d, negative, i3 - i2, exp_neg, exp_mag, exp_big, Ghost(e))
}

/// Codes order as the numbers they stand for. Of two positive numbers
/// `m1 * 10^q1` and `m2 * 10^q2` with 19 significant digits and `q1 <= q2`,
/// the first has the lower code exactly when it is the smaller; of their
/// negatives, exactly when it is the larger; every negative code is below
/// 0, the code of zero, and every positive code above it.
pub proof fn law_code_order(m1: nat, q1: int, m2: nat, q2: int)
    requires
        1_000_000_000_000_000_000 <= m1 < SIGNIFICAND_LIMIT,
        1_000_000_000_000_000_000 <= m2 < SIGNIFICAND_LIMIT,
        EXP_MIN <= q1 <= q2 <= EXP_MAX,
    ensures
        dec_code(false, m1, q1) < dec_code(false, m2, q2) <==> m1 < m2 * pow_ten((q2 - q1) as nat),
        dec_code(true, m1, q1) < dec_code(true, m2, q2) <==> m1 > m2 * pow_ten((q2 - q1) as nat),
        dec_code(true, m1, q1) < 0 < dec_code(false, m1, q1),
{
    let k = (q2 - q1) as nat;
    let l = SIGNIFICAND_LIMIT as int;
    assert((q1 - EXP_MIN) * l >= 0) by (nonlinear_arith)
        requires
            q1 - EXP_MIN >= 0,
            l > 0,
    ;
    if k == 0 {
        assert(pow_ten(0) == 1);
        assert(m2 * 1 == m2);
    } else {
        lemma_pow_monotone(1, k);
        assert(pow_ten(1) == 10) by {
            reveal_with_fuel(pow_ten, 2);
        }
        assert(m2 * pow_ten(k) >= 1_000_000_000_000_000_000 * 10) by (nonlinear_arith)
            requires
                m2 >= 1_000_000_000_000_000_000,
                pow_ten(k) >= 10,
        ;
        assert((q2 - EXP_MIN) * l >= (q1 - EXP_MIN) * l + l) by (nonlinear_arith)
            requires
                q2 >= q1 + 1,
                l > 0,
        ;
    }
}
/// The largest size of a code.
pub const CODE_BOUND: i128 = 20_000_000_010_000_000_000_000_000_000;

/// The significant digits of the number a nonzero code stands for.
pub open spec fn code_significand(c: int) -> nat {
    (if c < 0 { -c } else { c }) as nat % (SIGNIFICAND_LIMIT as nat)
}

/// The exponent of the number a nonzero code stands for.
pub open spec fn code_exponent(c: int) -> int {
    ((if c < 0 { -c } else { c }) as nat / (SIGNIFICAND_LIMIT as nat)) as int + EXP_MIN
}

/// The number text of a code: `0`, or the sign, the significant digits,
/// `e` and the exponent.
pub open spec fn code_text_spec(c: int) -> Seq<char> {
    if c == 0 {
        seq!['0']
    } else {
        (if c < 0 { seq!['-'] } else { Seq::<char>::empty() }) + nat_text(code_significand(c)) + seq!['e']
            + int_text(code_exponent(c))
    }
}

/// A code taken apart gives back its sign, significant digits and exponent.
pub proof fn law_code_parts(negative: bool, m: nat, q: int)
    requires
        1_000_000_000_000_000_000 <= m < SIGNIFICAND_LIMIT,
        EXP_MIN <= q <= EXP_MAX,
    ensures
        dec_code(negative, m, q) != 0,
        (dec_code(negative, m, q) < 0) == negative,
        code_significand(dec_code(negative, m, q)) == m,
        code_exponent(dec_code(negative, m, q)) == q,
        -CODE_BOUND <= dec_code(negative, m, q) <= CODE_BOUND,
{
    let l = SIGNIFICAND_LIMIT as int;
    let k = q - EXP_MIN;
    assert(0 <= k * l <= (EXP_MAX - EXP_MIN) * l) by (nonlinear_arith)
        requires
            0 <= k <= EXP_MAX - EXP_MIN,
            l > 0,
    ;
    lemma_fundamental_div_mod_converse_div(k * l + m, l, k, m as int);
    lemma_fundamental_div_mod_converse_mod(k * l + m, l, k, m as int);
}

/// The number text of a code (see [`code_text_spec`]).
pub fn code_text(c: i128) -> (res: String)
    requires
        -CODE_BOUND <= c <= CODE_BOUND,
    ensures
        res@ == code_text_spec(c as int),
{
    if c == 0 {
        let mut res = String::new();
        crate::bindings::push_char(&mut res, '0');
        return res;
    }
    let a: i128 = if c < 0 { -c } else { c };
    let m = (a % (SIGNIFICAND_LIMIT as i128)) as u64;
    let q = (a / (SIGNIFICAND_LIMIT as i128) + EXP_MIN) as i64;
    let mut res = String::new();
    if c < 0 {
        crate::bindings::push_char(&mut res, '-');
    }
    let mt = u64_text(m);
    res.append(mt.as_str());
    crate::bindings::push_char(&mut res, 'e');
    let qt = i64_text(q);
    res.append(qt.as_str());
    proof {
        assert(res@ =~= code_text_spec(c as int));
    }
    res
}
/// The digit run that starts at `i` ends at `j` when `s[i..j]` are digits
/// and `s[j]`, if any, is not.
proof fn lemma_digits_end_at(s: Seq<char>, i: int, j: int)
    requires
        0 <= i <= j <= s.len(),
        forall|x: int| i <= x < j ==> is_digit(#[trigger] s[x]),
        j == s.len() || !is_digit(s[j]),
    ensures
        digits_end(s, i) == j,
    decreases j - i,
{
    if i < j {
        lemma_digits_end_at(s, i + 1, j);
    }
}

/// The pieces of a text of digits only: the digits, none after a point, no
/// exponent, no sign.
proof fn lemma_parts_of_digits(s: Seq<char>)
    requires
        s.len() > 0,
        all_digits(s),
    ensures
        number_parts(s) == Some(NumberParts { negative: false, digits: s, frac_len: 0, exp: 0 }),
{
    assert(is_digit(s[0]));
    lemma_digits_end_at(s, 0, s.len() as int);
    assert(s.subrange(0, s.len() as int) =~= s);
    assert(s.subrange(s.len() as int, s.len() as int) =~= Seq::<char>::empty());
    assert(s.subrange(0, s.len() as int) + s.subrange(s.len() as int, s.len() as int) =~= s);
}

/// The pieces of `a.b e c`: the digits `a` then `b`, `b.len()` of them after
/// the point, and the exponent `c`.
proof fn lemma_parts_of_point_exp(a: Seq<char>, b: Seq<char>, c: Seq<char>)
    requires
        all_digits(a),
        all_digits(b),
        all_digits(c),
        a.len() + b.len() > 0,
        c.len() > 0,
    ensures
        number_parts(a + seq!['.'] + b + seq!['e'] + c) == Some(
            NumberParts { negative: false, digits: a + b, frac_len: b.len(), exp: digits_value(c) as int },
        ),
{
    let s = a + seq!['.'] + b + seq!['e'] + c;
    let la = a.len() as int;
    let lb = b.len() as int;
    assert(s[la] == '.');
    assert(s[la + 1 + lb] == 'e');
    assert forall|x: int| 0 <= x < la implies is_digit(#[trigger] s[x]) by {
        assert(s[x] == a[x]);
    }
    assert forall|x: int| la + 1 <= x < la + 1 + lb implies is_digit(#[trigger] s[x]) by {
        assert(s[x] == b[x - la - 1]);
    }
    assert forall|x: int| la + 2 + lb <= x < s.len() implies is_digit(#[trigger] s[x]) by {
        assert(s[x] == c[x - la - 2 - lb]);
    }
    if la > 0 {
        assert(s[0] == a[0]);
        assert(is_digit(a[0]));
    }
    assert(!is_sign(s[0]));
    lemma_digits_end_at(s, 0, la);
    lemma_digits_end_at(s, la + 1, la + 1 + lb);
    assert(s[la + 2 + lb] == c[0]);
    assert(is_digit(c[0]));
    lemma_digits_end_at(s, la + 2 + lb, s.len() as int);
    assert(s.subrange(0, la) =~= a);
    assert(s.subrange(la + 1, la + 1 + lb) =~= b);
    assert(s.subrange(la + 2 + lb, s.len() as int) =~= c);
}

/// An exponent moves the point: a number written with `b.len()` digits
/// after its point and the exponent `b.len()` has the code of the whole
/// number written with the same digits, neither point nor exponent
/// (`1.5e1` is `15`).
pub proof fn law_exponent_moves_point(a: Seq<char>, b: Seq<char>, c: Seq<char>)
    requires
        all_digits(a),
        all_digits(b),
        all_digits(c),
        a.len() + b.len() > 0,
        c.len() > 0,
        digits_value(c) == b.len(),
    ensures
        number_code(a + seq!['.'] + b + seq!['e'] + c) == number_code(a + b),
{
    lemma_parts_of_point_exp(a, b, c);
    assert forall|x: int| 0 <= x < (a + b).len() implies is_digit(#[trigger] (a + b)[x]) by {
        if x < a.len() {
            assert((a + b)[x] == a[x]);
        } else {
            assert((a + b)[x] == b[x - a.len()]);
        }
    }
    lemma_parts_of_digits(a + b);
}

/// The pieces of `a.b`: the digits `a` then `b`, `b.len()` of them after the
/// point, no exponent.
proof fn lemma_parts_of_point(a: Seq<char>, b: Seq<char>)
    requires
        all_digits(a),
        all_digits(b),
        a.len() + b.len() > 0,
    ensures
        number_parts(a + seq!['.'] + b) == Some(NumberParts { negative: false, digits: a + b, frac_len: b.len(), exp: 0 }),
{
    let s = a + seq!['.'] + b;
    let la = a.len() as int;
    let lb = b.len() as int;
    assert(s[la] == '.');
    assert forall|x: int| 0 <= x < la implies is_digit(#[trigger] s[x]) by {
        assert(s[x] == a[x]);
    }
    assert forall|x: int| la + 1 <= x < la + 1 + lb implies is_digit(#[trigger] s[x]) by {
        assert(s[x] == b[x - la - 1]);
    }
    if la > 0 {
        assert(s[0] == a[0]);
        assert(is_digit(a[0]));
    }
    assert(!is_sign(s[0]));
    lemma_digits_end_at(s, 0, la);
    lemma_digits_end_at(s, la + 1, la + 1 + lb);
    assert(s.subrange(0, la) =~= a);
    assert(s.subrange(la + 1, la + 1 + lb) =~= b);
}

/// The pieces of `ab e-c`: the digits `a` then `b`, none after a point, and
/// the exponent minus `c`.
proof fn lemma_parts_of_negative_exp(a: Seq<char>, b: Seq<char>, c: Seq<char>)
    requires
        all_digits(a),
        all_digits(b),
        all_digits(c),
        a.len() + b.len() > 0,
        c.len() > 0,
    ensures
        number_parts(a + b + seq!['e', '-'] + c) == Some(
            NumberParts { negative: false, digits: a + b, frac_len: 0, exp: -(digits_value(c) as int) },
        ),
{
    let s = a + b + seq!['e', '-'] + c;
    let l = (a.len() + b.len()) as int;
    assert(s[l] == 'e');
    assert(s[l + 1] == '-');
    assert forall|x: int| 0 <= x < l implies is_digit(#[trigger] s[x]) by {
        if x < a.len() {
            assert(s[x] == a[x]);
        } else {
            assert(s[x] == b[x - a.len()]);
        }
    }
    assert forall|x: int| l + 2 <= x < s.len() implies is_digit(#[trigger] s[x]) by {
        assert(s[x] == c[x - l - 2]);
    }
    assert(is_digit(s[0]));
    assert(!is_sign(s[0]));
    lemma_digits_end_at(s, 0, l);
    lemma_digits_end_at(s, l + 2, s.len() as int);
    assert(s.subrange(0, l) =~= a + b);
    assert(s.subrange(l, l) =~= Seq::<char>::empty());
    assert(s.subrange(0, l) + s.subrange(l, l) =~= a + b);
    assert(s.subrange(l + 2, s.len() as int) =~= c);
}

/// A negative exponent moves the point left: digits followed by the
/// exponent minus `b.len()` have the code of the same digits with the last
/// `b.len()` of them after a point (`15e-1` is `1.5`).
pub proof fn law_negative_exponent_moves_point(a: Seq<char>, b: Seq<char>, c: Seq<char>)
    requires
        all_digits(a),
        all_digits(b),
        all_digits(c),
        a.len() + b.len() > 0,
        c.len() > 0,
        digits_value(c) == b.len(),
    ensures
        number_code(a + b + seq!['e', '-'] + c) == number_code(a + seq!['.'] + b),
{
    lemma_parts_of_negative_exp(a, b, c);
    lemma_parts_of_point(a, b);
}

proof fn lemma_digits_end_bounds(s: Seq<char>, i: int)
    requires
        0 <= i <= s.len(),
    ensures
        i <= digits_end(s, i) <= s.len(),
    decreases s.len() - i,
{
    if i < s.len() && is_digit(s[i]) {
        lemma_digits_end_bounds(s, i + 1);
    }
}

proof fn lemma_digits_end_shift(x: char, t: Seq<char>, i: int)
    requires
        0 <= i <= t.len(),
    ensures
        digits_end(seq![x] + t, i + 1) == digits_end(t, i) + 1,
    decreases t.len() - i,
{
    let s = seq![x] + t;
    if i < t.len() {
        assert(s[i + 1] == t[i]);
        if is_digit(t[i]) {
            lemma_digits_end_shift(x, t, i + 1);
        }
    }
}

/// A sign in front of a text with none changes only the sign of its pieces.
#[verifier::rlimit(30)]
proof fn lemma_parts_of_signed(x: char, t: Seq<char>)
    requires
        is_sign(x),
        t.len() == 0 || !is_sign(t[0]),
    ensures
        number_parts(seq![x] + t) == (match number_parts(t) {
            Some(p) => Some(NumberParts { negative: x == '-', digits: p.digits, frac_len: p.frac_len, exp: p.exp }),
            None => None,
        }),
{
    let s = seq![x] + t;
    assert(s[0] == x);
    assert forall|k: int| 0 <= k < t.len() implies s[k + 1] == t[k] by {}
    let i1 = digits_end(t, 0);
    lemma_digits_end_shift(x, t, 0);
    lemma_digits_end_bounds(t, 0);
    let i2 = if i1 < t.len() && t[i1] == '.' { i1 + 1 } else { i1 };
    if i1 < t.len() {
        assert(s[i1 + 1] == t[i1]);
    }
    if i2 > i1 {
        lemma_digits_end_shift(x, t, i2);
        lemma_digits_end_bounds(t, i2);
    }
    let i3 = if i2 > i1 { digits_end(t, i2) } else { i2 };
    assert(s.subrange(1, i1 + 1) =~= t.subrange(0, i1));
    assert(s.subrange(i2 + 1, i3 + 1) =~= t.subrange(i2, i3));
    if i3 < t.len() {
        assert(s[i3 + 1] == t[i3]);
        if i3 + 1 < t.len() {
            assert(s[i3 + 2] == t[i3 + 1]);
        }
        let j = if i3 + 1 < t.len() && is_sign(t[i3 + 1]) { i3 + 2 } else { i3 + 1 };
        lemma_digits_end_shift(x, t, j);
        lemma_digits_end_bounds(t, j);
        let k = digits_end(t, j);
        assert(s.subrange(j + 1, k + 1) =~= t.subrange(j, k));
    }
}

/// A sign in front of a number: `+` keeps its code, `-` negates it (zero
/// stays zero); a text that is no number stays none.
pub proof fn law_sign_of_number(t: Seq<char>)
    requires
        t.len() == 0 || !is_sign(t[0]),
    ensures
        number_code(seq!['+'] + t) == number_code(t),
        number_code(seq!['-'] + t) == (match number_code(t) {
            Some(c) => Some(-c),
            None => None,
        }),
{
    lemma_parts_of_signed('+', t);
    lemma_parts_of_signed('-', t);
}

proof fn lemma_pow_add(a: nat, b: nat)
    ensures
        pow_ten(a + b) == pow_ten(a) * pow_ten(b),
    decreases a,
{
    if a == 0 {
        assert(pow_ten(0) == 1);
        assert(a + b == b);
    } else {
        let a1 = (a - 1) as nat;
        lemma_pow_add(a1, b);
        assert((a + b - 1) as nat == a1 + b);
        assert(pow_ten(a + b) == 10 * pow_ten(a1 + b));
        assert(pow_ten(a) == 10 * pow_ten(a1));
        lemma_mul_is_associative(10, pow_ten(a1) as int, pow_ten(b) as int);
    }
}

/// The code of a whole number of at most 19 digits stands for it exactly:
/// its significant digits are the number followed by zeros up to 19 digits,
/// and its exponent takes those zeros back (`v = m * 10^q`).
pub proof fn law_whole_number_code(s: Seq<char>, l: nat)
    requires
        all_digits(s),
        s.len() > 0,
        1 <= l <= 19,
        pow_ten((l - 1) as nat) <= digits_value(s) < pow_ten(l),
    ensures
        number_code(s) matches Some(c) && c > 0 && code_significand(c) == digits_value(s) * pow_ten(
            (19 - l) as nat,
        ) && code_exponent(c) == l - 19,
{
    lemma_parts_of_digits(s);
    let mv = digits_value(s);
    lemma_pow_pos((l - 1) as nat);
    lemma_num_digits(mv, l);
    let k = (19 - l) as nat;
    let m = mv * pow_ten(k);
    lemma_pow_add((l - 1) as nat, k);
    lemma_pow_add(l, k);
    assert((l - 1) as nat + k == 18);
    assert(l + k == 19);
    assert(pow_ten(18) == 1_000_000_000_000_000_000 && pow_ten(19) == 10_000_000_000_000_000_000) by {
        reveal_with_fuel(pow_ten, 20);
    }
    lemma_pow_pos(k);
    assert(pow_ten((l - 1) as nat) * pow_ten(k) <= m < pow_ten(l) * pow_ten(k)) by (nonlinear_arith)
        requires
            pow_ten((l - 1) as nat) <= mv < pow_ten(l),
            m == mv * pow_ten(k),
            pow_ten(k) >= 1,
    ;
    if l == 19 {
        assert(pow_ten(0) == 1);
        assert(mv / 1 == mv);
        assert(mv * 1 == mv);
    }
    assert(normalized(mv, 0) == (m, l - 19));
    law_code_parts(false, m, l - 19);
}

} // verus!
