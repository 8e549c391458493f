//! Decimal text for integers and fixed-point numbers.
//!
//! Episode numbers and ratings are held in thousandths; this module turns
//! them into the text the sources and players expect and reads them back.

use vstd::prelude::*;

verus! {

/// The character of the decimal digit `d` (0 to 9).
pub open spec fn digit_char(d: int) -> char {
    (('0' as int) + d) as char
}

/// Whether `c` is an ASCII decimal digit.
pub open spec fn is_digit(c: char) -> bool {
    '0' <= c && c <= '9'
}

/// The value of the digit character `c`.
pub open spec fn digit_value(c: char) -> nat {
    (c as int - '0' as int) as nat
}

/// Decimal digits of `n`, most significant first, without leading zeros.
pub open spec fn nat_text(n: nat) -> Seq<char>
    decreases n,
{
    if n < 10 {
        seq![digit_char(n as int)]
    } else {
        nat_text(n / 10).push(digit_char((n % 10) as int))
    }
}

/// Decimal text of `n`, with a leading '-' when negative.
pub open spec fn int_text(n: int) -> Seq<char> {
    if n < 0 {
        seq!['-'] + nat_text((-n) as nat)
    } else {
        nat_text(n as nat)
    }
}

/// Appends the decimal digits of `n` to `out`.
pub fn push_digits(n: u64, out: &mut Vec<char>)
    ensures
        final(out)@ == old(out)@ + nat_text(n as nat),
    decreases n,
{
    if n >= 10 {
        push_digits(n / 10, out);
    }
    let d = n % 10;
    let c = digit_of(d);
    out.push(c);
}

/// The digit character for `d`.
fn digit_of(d: u64) -> (c: char)
    requires
        d < 10,
    ensures
        c == digit_char(d as int),
{
    match d {
        0 => '0',
        1 => '1',
        2 => '2',
        3 => '3',
        4 => '4',
        5 => '5',
        6 => '6',
        7 => '7',
        8 => '8',
        _ => '9',
    }
}

/// Decimal text of `n`.
pub fn int_to_text(n: i64) -> (r: Vec<char>)
    ensures
        r@ == int_text(n as int),
{
    let mut out: Vec<char> = Vec::new();
    if n < 0 {
        out.push('-');
        let mag: u64 = ((-(n + 1)) as u64) + 1;
        push_digits(mag, &mut out);
    } else {
        push_digits(n as u64, &mut out);
    }
    out
}

/// 10 to the power `k`.
pub open spec fn pow10(k: nat) -> nat
    decreases k,
{
    if k == 0 {
        1
    } else {
        10 * pow10((k - 1) as nat)
    }
}

/// Whether every character of `s` is a decimal digit.
pub open spec fn all_digits(s: Seq<char>) -> bool {
    forall|i: int| 0 <= i < s.len() ==> is_digit(#[trigger] s[i])
}

/// The value of a string of decimal digits.
pub open spec fn digits_value(s: Seq<char>) -> nat
    decreases s.len(),
{
    if s.len() == 0 {
        0
    } else {
        digits_value(s.drop_last()) * 10 + digit_value(s.last())
    }
}

/// Index of the first '.' in `s`, or `s.len()` when there is none.
pub open spec fn dot_index(s: Seq<char>) -> int
    decreases s.len(),
{
    if s.len() == 0 {
        0
    } else if s[0] == '.' {
        0
    } else {
        1 + dot_index(s.skip(1))
    }
}

/// Index of the first exponent mark ('e' or 'E') in `s`, or `s.len()`.
pub open spec fn exp_index(s: Seq<char>) -> int
    decreases s.len(),
{
    if s.len() == 0 {
        0
    } else if s[0] == 'e' || s[0] == 'E' {
        0
    } else {
        1 + exp_index(s.skip(1))
    }
}

/// The value of an exponent: an optional sign, then at least one digit.
pub open spec fn exponent_value(t: Seq<char>) -> Option<int> {
    let (neg, d) = if t.len() > 0 && t[0] == '-' {
        (true, t.skip(1))
    } else if t.len() > 0 && t[0] == '+' {
        (false, t.skip(1))
    } else {
        (false, t)
    };
    if d.len() > 0 && all_digits(d) {
        Some(if neg { -(digits_value(d) as int) } else { digits_value(d) as int })
    } else {
        None
    }
}

/// The number whose digits are `m` with the decimal point after the first
/// `p` of them, truncated toward zero.
pub open spec fn shifted_value(m: Seq<char>, p: int) -> nat {
    if p <= 0 {
        0
    } else if p <= m.len() {
        digits_value(m.take(p))
    } else {
        digits_value(m) * pow10((p - m.len()) as nat)
    }
}

/// The value of unsigned decimal text `digits[.digits][(e|E)[sign]digits]`,
/// with at least one mantissa digit, in units of `10^-scale` (truncated).
pub open spec fn unsigned_units(s: Seq<char>, scale: nat) -> Option<nat> {
    let ei = exp_index(s);
    let m = s.take(ei);
    let e = if ei < s.len() {
        exponent_value(s.skip(ei + 1))
    } else {
        Some(0int)
    };
    let d = dot_index(m);
    let ip = m.take(d);
    let fp = if d < m.len() { m.skip(d + 1) } else { Seq::<char>::empty() };
    match e {
        Some(x) => if all_digits(ip) && all_digits(fp) && ip.len() + fp.len() > 0 {
            Some(shifted_value(ip + fp, ip.len() + x + scale))
        } else {
            None
        },
        None => None,
    }
}

/// `c` with an ASCII capital made small.
pub open spec fn lower_ascii(c: char) -> char {
    if 'A' <= c && c <= 'Z' {
        (((c as u32) + 32) as u8) as char
    } else {
        c
    }
}

/// Whether `s` is the lower-case `word` with any letters capitalised.
pub open spec fn same_ignoring_case(s: Seq<char>, word: Seq<char>) -> bool {
    s.len() == word.len() && forall|i: int| 0 <= i < s.len() ==> lower_ascii(#[trigger] s[i]) == word[i]
}

/// "inf" or "infinity", in any case.
pub open spec fn is_infinity_text(s: Seq<char>) -> bool {
    same_ignoring_case(s, "inf"@) || same_ignoring_case(s, "infinity"@)
}

/// `x` limited to the range of `i64`.
pub open spec fn clamp_i64(x: int) -> i64 {
    if x > i64::MAX {
        i64::MAX
    } else if x < i64::MIN {
        i64::MIN
    } else {
        x as i64
    }
}

/// The number that the standard float parser reads from `s`, in units of
/// `10^-scale` truncated toward zero and limited to the `i64` range: an
/// optional sign, then decimal text with an optional exponent, or "inf" or
/// "infinity" in any case (the ends of the range). `None` for any other
/// text, "nan" among them.
pub open spec fn parse_fixed(s: Seq<char>, scale: nat) -> Option<i64> {
    let (neg, body) = if s.len() > 0 && s[0] == '-' {
        (true, s.skip(1))
    } else if s.len() > 0 && s[0] == '+' {
        (false, s.skip(1))
    } else {
        (false, s)
    };
    if is_infinity_text(body) {
        Some(if neg { i64::MIN } else { i64::MAX })
    } else {
        match unsigned_units(body, scale) {
            Some(v) => Some(clamp_i64(if neg { -(v as int) } else { v as int })),
            None => None,
        }
    }
}

proof fn lemma_pow10_pos(k: nat)
    ensures
        pow10(k) >= 1,
    decreases k,
{
    if k > 0 {
        lemma_pow10_pos((k - 1) as nat);
    }
}

proof fn lemma_digits_prefix_mono(s: Seq<char>, i: int)
    requires
        0 <= i <= s.len(),
    ensures
        digits_value(s.take(i)) <= digits_value(s),
    decreases s.len() - i,
{
    if i < s.len() {
        lemma_digits_prefix_mono(s, i + 1);
        assert(s.take(i + 1).drop_last() =~= s.take(i));
    } else {
        assert(s.take(i) =~= s);
    }
}

proof fn lemma_digits_step(s: Seq<char>, i: int)
    requires
        0 <= i < s.len(),
    ensures
        digits_value(s.take(i + 1)) == digits_value(s.take(i)) * 10 + digit_value(s[i]),
{
    assert(s.take(i + 1).drop_last() =~= s.take(i));
}

proof fn lemma_dot_index(s: Seq<char>)
    ensures
        0 <= dot_index(s) <= s.len(),
        forall|j: int| 0 <= j < dot_index(s) ==> s[j] != '.',
        dot_index(s) < s.len() ==> s[dot_index(s)] == '.',
    decreases s.len(),
{
    if s.len() > 0 && s[0] != '.' {
        lemma_dot_index(s.skip(1));
        assert forall|j: int| 0 <= j < dot_index(s) implies s[j] != '.' by {
            if j > 0 {
                assert(s[j] == s.skip(1)[j - 1]);
            }
        }
    }
}

/// Reads the digits of `s[from..to]` as a number, or `None` when a
/// character is not a digit or the value exceeds `limit`.
fn read_digits(s: &Vec<char>, from: usize, to: usize, limit: u128) -> (r: Option<u128>)
    requires
        from <= to <= s.len(),
        limit <= u64::MAX as u128 * 16,
    ensures
        match r {
            Some(v) => all_digits(s@.subrange(from as int, to as int)) && v == digits_value(
                s@.subrange(from as int, to as int),
            ) && v <= limit,
            None => !all_digits(s@.subrange(from as int, to as int)) || digits_value(
                s@.subrange(from as int, to as int),
            ) > limit,
        },
{
    let ghost t = s@.subrange(from as int, to as int);
    let mut acc: u128 = 0;
    let mut i = from;
    assert(t.take(0) =~= Seq::<char>::empty());
    while i < to
        invariant
            from <= i <= to <= s.len(),
            t == s@.subrange(from as int, to as int),
            limit <= u64::MAX as u128 * 16,
            all_digits(t.take(i - from)),
            acc == digits_value(t.take(i - from)),
            acc <= limit,
        decreases to - i,
    {
        let c = s[i];
        proof {
            assert(t[i - from] == c);
        }
        if !('0' <= c && c <= '9') {
            return None;
        }
        let d = (c as u32 - '0' as u32) as u128;
        proof {
            lemma_digits_step(t, i - from);
            assert(t.take(i - from + 1) =~= t.take(i - from).push(c));
        }
        let next = acc * 10 + d;
        if next > limit {
            proof {
                lemma_digits_prefix_mono(t, i - from + 1);
            }
            return None;
        }
        acc = next;
        i = i + 1;
    }
    assert(t.take(to - from) =~= t);
    Some(acc)
}

fn pow10_exec(k: u32) -> (r: u128)
    requires
        k <= 18,
    ensures
        r == pow10(k as nat),
        r <= 1_000_000_000_000_000_000,
    decreases k,
{
    if k == 0 {
        1
    } else {
        let p = pow10_exec(k - 1);
        proof {
            assert(pow10(k as nat) == 10 * pow10((k - 1) as nat));
        }
        assert(p <= 100_000_000_000_000_000) by {
            if k - 1 <= 17 {
                lemma_pow10_le((k - 1) as nat);
            }
        }
        10 * p
    }
}

proof fn lemma_pow10_le(k: nat)
    requires
        k <= 17,
    ensures
        pow10(k) <= 100_000_000_000_000_000,
    decreases k,
{
    if k > 0 {
        lemma_pow10_le((k - 1) as nat);
        assert(pow10((k - 1) as nat) <= 10_000_000_000_000_000) by {
            lemma_pow10_le_small((k - 1) as nat);
        }
    }
}

proof fn lemma_pow10_le_small(k: nat)
    requires
        k <= 16,
    ensures
        pow10(k) <= 10_000_000_000_000_000,
    decreases k,
{
    if k > 0 {
        lemma_pow10_le_small((k - 1) as nat);
        assert(pow10((k - 1) as nat) <= 1_000_000_000_000_000) by {
            lemma_pow10_mono((k - 1) as nat, 15);
            reveal_with_fuel(pow10, 16);
        }
    }
}

proof fn lemma_pow10_mono(a: nat, b: nat)
    requires
        a <= b,
    ensures
        pow10(a) <= pow10(b),
    decreases b,
{
    if a < b {
        lemma_pow10_mono(a, (b - 1) as nat);
        lemma_pow10_pos((b - 1) as nat);
    }
}


proof fn lemma_dot_index_unique(s: Seq<char>, k: int)
    requires
        0 <= k <= s.len(),
        forall|j: int| 0 <= j < k ==> s[j] != '.',
        k < s.len() ==> s[k] == '.',
    ensures
        dot_index(s) == k,
{
    lemma_dot_index(s);
}

/// Whether every character of `s[from..to]` is a decimal digit.
fn all_digits_exec(s: &Vec<char>, from: usize, to: usize) -> (r: bool)
    requires
        from <= to <= s.len(),
    ensures
        r == all_digits(s@.subrange(from as int, to as int)),
{
    let ghost t = s@.subrange(from as int, to as int);
    let mut i = from;
    while i < to
        invariant
            from <= i <= to <= s.len(),
            t == s@.subrange(from as int, to as int),
            forall|j: int| 0 <= j < i - from ==> is_digit(#[trigger] t[j]),
        decreases to - i,
    {
        let c = s[i];
        assert(t[i - from] == c);
        if !('0' <= c && c <= '9') {
            return false;
        }
        i = i + 1;
    }
    true
}

proof fn lemma_exp_index(s: Seq<char>)
    ensures
        0 <= exp_index(s) <= s.len(),
        forall|j: int| 0 <= j < exp_index(s) ==> s[j] != 'e' && s[j] != 'E',
        exp_index(s) < s.len() ==> (s[exp_index(s)] == 'e' || s[exp_index(s)] == 'E'),
    decreases s.len(),
{
    if s.len() > 0 && s[0] != 'e' && s[0] != 'E' {
        lemma_exp_index(s.skip(1));
        assert forall|j: int| 0 <= j < exp_index(s) implies s[j] != 'e' && s[j] != 'E' by {
            if j > 0 {
                assert(s[j] == s.skip(1)[j - 1]);
            }
        }
    }
}

proof fn lemma_exp_index_unique(s: Seq<char>, k: int)
    requires
        0 <= k <= s.len(),
        forall|j: int| 0 <= j < k ==> s[j] != 'e' && s[j] != 'E',
        k < s.len() ==> (s[k] == 'e' || s[k] == 'E'),
    ensures
        exp_index(s) == k,
{
    lemma_exp_index(s);
}

/// Whether `s[b..]` is `word` (lower case) with any letters capitalised.
fn same_ignoring_case_exec(s: &Vec<char>, b: usize, word: &str) -> (r: bool)
    requires
        b <= s.len(),
    ensures
        r == same_ignoring_case(s@.skip(b as int), word@),
{
    let w = crate::text::chars_of(word);
    let n = s.len();
    if n - b != w.len() {
        return false;
    }
    let ghost t = s@.skip(b as int);
    let mut i: usize = 0;
    while i < w.len()
        invariant
            n == s.len(),
            b <= n,
            n - b == w.len(),
            t == s@.skip(b as int),
            w@ == word@,
            i <= w.len(),
            forall|j: int| 0 <= j < i ==> lower_ascii(#[trigger] t[j]) == w@[j],
        decreases w.len() - i,
    {
        let c = s[b + i];
        assert(t[i as int] == c);
        let l = if 'A' <= c && c <= 'Z' {
            ((c as u32 + 32) as u8) as char
        } else {
            c
        };
        assert(l == lower_ascii(c));
        if l != w[i] {
            assert(!(lower_ascii(t[i as int]) == word@[i as int]));
            return false;
        }
        i = i + 1;
    }
    true
}

/// The largest magnitude an `i64` can take (that of `i64::MIN`).
const MAG_LIMIT: u128 = 9_223_372_036_854_775_808;

/// Exponents are read exactly up to this bound.
const EXP_LIMIT: u128 = 295_147_905_179_352_825_840;

proof fn lemma_pow10_19()
    ensures
        pow10(19) == 10_000_000_000_000_000_000,
{
    reveal_with_fuel(pow10, 20);
}

/// A value whose digits are not all zero, shifted by at least 19 places,
/// exceeds the `i64` range.
proof fn lemma_big_shift(dv: nat, k: nat)
    requires
        dv >= 1,
        k >= 19,
    ensures
        dv * pow10(k) > MAG_LIMIT,
{
    lemma_pow10_19();
    lemma_pow10_mono(19, k);
    assert(dv * pow10(k) >= pow10(k)) by (nonlinear_arith)
        requires
            dv >= 1,
    ;
}

/// The value of the unsigned text `s[b..]` in units of `10^-scale`: exactly
/// when it is at most `2^63`, else some number above `2^63`; `None` when the
/// text is not decimal text with an optional exponent.
#[verifier::rlimit(60)]
#[verifier::spinoff_prover]
fn unsigned_units_exec(s: &Vec<char>, b: usize, scale: u32) -> (r: Option<u128>)
    requires
        scale <= 6,
        b <= s.len(),
    ensures
        match r {
            Some(v) => unsigned_units(s@.skip(b as int), scale as nat) matches Some(u) && (if v
                <= MAG_LIMIT {
                u == v
            } else {
                u > MAG_LIMIT
            }),
            None => unsigned_units(s@.skip(b as int), scale as nat) is None,
        },
{
    let n = s.len();
    let ghost body = s@.skip(b as int);
    // the exponent mark
    let mut ei = b;
    while ei < n && s[ei] != 'e' && s[ei] != 'E'
        invariant
            b <= ei <= n,
            n == s.len(),
            forall|j: int| b <= j < ei ==> s@[j] != 'e' && s@[j] != 'E',
        decreases n - ei,
    {
        ei = ei + 1;
    }
    proof {
        assert forall|j: int| 0 <= j < ei - b implies body[j] != 'e' && body[j] != 'E' by {
            assert(body[j] == s@[b + j]);
        }
        if ei < n {
            assert(body[ei - b] == s@[ei as int]);
        }
        lemma_exp_index_unique(body, ei - b);
    }
    let ghost m = body.take(ei - b);
    // the decimal point within the mantissa
    let mut d = b;
    while d < ei && s[d] != '.'
        invariant
            b <= d <= ei <= n,
            n == s.len(),
            forall|j: int| b <= j < d ==> s@[j] != '.',
        decreases ei - d,
    {
        d = d + 1;
    }
    let fs = if d < ei { d + 1 } else { ei };
    let ghost ip = s@.subrange(b as int, d as int);
    let ghost fp = s@.subrange(fs as int, ei as int);
    proof {
        assert(m =~= s@.subrange(b as int, ei as int));
        assert forall|j: int| 0 <= j < d - b implies m[j] != '.' by {
            assert(m[j] == s@[b + j]);
        }
        if d < ei {
            assert(m[d - b] == s@[d as int]);
        }
        lemma_dot_index_unique(m, d - b);
        assert(m.take(d - b) =~= ip);
        if d < ei {
            assert(m.skip(d - b + 1) =~= fp);
        } else {
            assert(fp =~= Seq::<char>::empty());
        }
    }
    if !(all_digits_exec(s, b, d) && all_digits_exec(s, fs, ei) && (d - b) + (ei - fs) > 0) {
        return None;
    }
    // the exponent
    let mut eneg = false;
    let mut huge = false;
    let mut ev: u128 = 0;
    let ghost mut x: int = 0;
    if ei < n {
        let ghost t = body.skip(ei - b + 1);
        let mut es = ei + 1;
        proof {
            assert(t =~= s@.subrange(ei + 1, n as int));
        }
        if es < n && s[es] == '-' {
            eneg = true;
            es = es + 1;
        } else if es < n && s[es] == '+' {
            es = es + 1;
        }
        proof {
            if es > ei + 1 {
                assert(t.skip(1) =~= s@.subrange(es as int, n as int));
            } else {
                assert(t =~= s@.subrange(es as int, n as int));
            }
        }
        if !(es < n && all_digits_exec(s, es, n)) {
            return None;
        }
        match read_digits(s, es, n, EXP_LIMIT) {
            Some(v) => {
                ev = v;
            },
            None => {
                huge = true;
            },
        }
        proof {
            let dv = digits_value(s@.subrange(es as int, n as int)) as int;
            x = if eneg { -dv } else { dv };
            assert(exponent_value(t) == Some(x));
        }
    } else {
        proof {
            assert(exponent_value(Seq::<char>::empty()) is None);
        }
    }
    // the mantissa digits, point removed
    let mut md: Vec<char> = Vec::new();
    for i in b..d
        invariant
            b <= d <= n,
            n == s.len(),
            md@ == s@.subrange(b as int, i as int),
    {
        md.push(s[i]);
        assert(s@.subrange(b as int, i + 1) == s@.subrange(b as int, i as int).push(s@[i as int]));
    }
    for i in fs..ei
        invariant
            fs <= ei <= n,
            n == s.len(),
            md@ == ip + s@.subrange(fs as int, i as int),
    {
        md.push(s[i]);
        assert(s@.subrange(fs as int, i + 1) == s@.subrange(fs as int, i as int).push(s@[i as int]));
        assert(ip + s@.subrange(fs as int, i + 1) =~= (ip + s@.subrange(fs as int, i as int)).push(
            s@[i as int],
        ));
    }
    let ghost mv = ip + fp;
    assert(md@ =~= mv);
    let len = md.len();
    proof {
        assert(all_digits(mv)) by {
            assert forall|j: int| 0 <= j < mv.len() implies is_digit(#[trigger] mv[j]) by {
                if j < ip.len() {
                    assert(mv[j] == ip[j]);
                } else {
                    assert(mv[j] == fp[j - ip.len()]);
                }
            }
        }
        assert(md@.subrange(0, len as int) =~= mv);
        assert(unsigned_units(body, scale as nat) == Some(
            shifted_value(mv, ip.len() + x + scale),
        ));
    }
    let r = shifted_units(&md, d - b, eneg, ev, huge, scale, Ghost(x));
    Some(r)
}

/// The digits `md` shifted by `ip_len + x + scale` places, exactly when the
/// value is at most `2^63`, else some number above `2^63`. `huge` says the
/// exponent `x` exceeded `EXP_LIMIT` in size (its sign given by `eneg`).
fn shifted_units(
    md: &Vec<char>,
    ip_len: usize,
    eneg: bool,
    ev: u128,
    huge: bool,
    scale: u32,
    Ghost(x): Ghost<int>,
) -> (r: u128)
    requires
        all_digits(md@),
        ip_len <= md.len(),
        scale <= 6,
        ev <= EXP_LIMIT,
        huge && eneg ==> x < -(EXP_LIMIT as int),
        huge && !eneg ==> x > EXP_LIMIT,
        !huge ==> x == (if eneg { -(ev as int) } else { ev as int }),
    ensures
        ({
            let u = shifted_value(md@, ip_len + x + scale);
            if r <= MAG_LIMIT {
                u == r
            } else {
                u > MAG_LIMIT
            }
        }),
{
    let len = md.len();
    let ghost mv = md@;
    let ghost p_spec: int = ip_len + x + scale;
    assert(md@.subrange(0, len as int) =~= mv);
    if huge {
        if eneg {
            assert(p_spec <= 0);
            return 0;
        }
        assert(p_spec - mv.len() >= 19);
        return match read_digits(md, 0, len, MAG_LIMIT) {
            Some(v) => {
                if v == 0 {
                    assert(shifted_value(mv, p_spec) == 0 * pow10((p_spec - mv.len()) as nat));
                    0
                } else {
                    proof {
                        lemma_big_shift(digits_value(mv), (p_spec - mv.len()) as nat);
                    }
                    MAG_LIMIT + 1
                }
            },
            None => {
                proof {
                    lemma_pow10_pos((p_spec - mv.len()) as nat);
                    assert(digits_value(mv) * pow10((p_spec - mv.len()) as nat) >= digits_value(mv))
                        by (nonlinear_arith)
                        requires
                            pow10((p_spec - mv.len()) as nat) >= 1,
                    ;
                }
                MAG_LIMIT + 1
            },
        };
    }
    let xi: i128 = if eneg { -(ev as i128) } else { ev as i128 };
    let p: i128 = ip_len as i128 + xi + scale as i128;
    assert(p == p_spec);
    if p <= 0 {
        return 0;
    }
    if p <= len as i128 {
        let pu = p as usize;
        proof {
            assert(md@.subrange(0, pu as int) =~= mv.take(pu as int));
        }
        return match read_digits(md, 0, pu, MAG_LIMIT) {
            Some(v) => v,
            None => MAG_LIMIT + 1,
        };
    }
    let v = match read_digits(md, 0, len, MAG_LIMIT) {
        Some(v) => v,
        None => {
            proof {
                lemma_pow10_pos((p_spec - mv.len()) as nat);
                assert(digits_value(mv) * pow10((p_spec - mv.len()) as nat) >= digits_value(mv))
                    by (nonlinear_arith)
                    requires
                        pow10((p_spec - mv.len()) as nat) >= 1,
                ;
            }
            return MAG_LIMIT + 1;
        },
    };
    if v == 0 {
        assert(shifted_value(mv, p_spec) == 0 * pow10((p_spec - mv.len()) as nat));
        return 0;
    }
    let k = p - len as i128;
    if k > 18 {
        proof {
            lemma_big_shift(digits_value(mv), k as nat);
        }
        return MAG_LIMIT + 1;
    }
    let q = pow10_exec(k as u32);
    assert(v * q <= MAG_LIMIT * 1_000_000_000_000_000_000) by (nonlinear_arith)
        requires
            v <= MAG_LIMIT,
            q <= 1_000_000_000_000_000_000,
    ;
    let total = v * q;
    if total > MAG_LIMIT {
        MAG_LIMIT + 1
    } else {
        total
    }
}

/// Reads a number as the standard float parser does (decimal text with an
/// optional sign and exponent, or "inf"/"infinity" in any case) into units
/// of `10^-scale`, truncated toward zero and limited to the `i64` range;
/// `None` for any other text.
pub fn parse_fixed_chars(s: &Vec<char>, scale: u32) -> (r: Option<i64>)
    requires
        scale <= 6,
    ensures
        r == parse_fixed(s@, scale as nat),
{
    let n = s.len();
    let mut b: usize = 0;
    let mut neg = false;
    if n > 0 && s[0] == '-' {
        b = 1;
        neg = true;
    } else if n > 0 && s[0] == '+' {
        b = 1;
    }
    assert(b == 0 ==> s@.skip(0) =~= s@);
    proof {
        reveal_strlit("inf");
        reveal_strlit("infinity");
    }
    if same_ignoring_case_exec(s, b, "inf") || same_ignoring_case_exec(s, b, "infinity") {
        return if neg { Some(i64::MIN) } else { Some(i64::MAX) };
    }
    match unsigned_units_exec(s, b, scale) {
        Some(v) => {
            if neg {
                if v >= MAG_LIMIT {
                    Some(i64::MIN)
                } else {
                    let t = v as i64;
                    Some(-t)
                }
            } else if v > 9_223_372_036_854_775_807 {
                Some(i64::MAX)
            } else {
                Some(v as i64)
            }
        },
        None => None,
    }
}

proof fn lemma_digits_bound(s: Seq<char>)
    requires
        all_digits(s),
    ensures
        digits_value(s) < pow10(s.len()),
    decreases s.len(),
{
    if s.len() > 0 {
        assert(is_digit(s[s.len() - 1]));
        assert(all_digits(s.drop_last())) by {
            assert forall|i: int| 0 <= i < s.drop_last().len() implies is_digit(#[trigger] s.drop_last()[i]) by {
                assert(s.drop_last()[i] == s[i]);
            }
        }
        lemma_digits_bound(s.drop_last());
        assert(digits_value(s.drop_last()) * 10 + digit_value(s.last()) < pow10(s.len())) by (nonlinear_arith)
            requires
                digits_value(s.drop_last()) < pow10(s.drop_last().len()),
                digit_value(s.last()) < 10,
                pow10(s.len()) == 10 * pow10(s.drop_last().len()),
        ;
    }
}

proof fn lemma_pow10_split(a: nat, b: nat)
    ensures
        pow10(a + b) == pow10(a) * pow10(b),
    decreases a,
{
    if a > 0 {
        let a1 = (a - 1) as nat;
        lemma_pow10_split(a1, b);
        assert(pow10(a) == 10 * pow10(a1));
        assert(a + b == (a1 + b) + 1);
        assert(pow10(a1 + b + 1) == 10 * pow10(a1 + b));
        assert(10 * (pow10(a1) * pow10(b)) == (10 * pow10(a1)) * pow10(b)) by (nonlinear_arith);
        assert(pow10(a + b) == pow10(a1 + b + 1));
        assert(pow10(a + b) == 10 * (pow10(a1) * pow10(b)));
        assert(pow10(a + b) == pow10(a) * pow10(b));
    } else {
        assert(pow10(0) == 1);
        assert(a + b == b);
    }
}


/// `x` limited to the range of `i32` (what a saturating cast gives).
pub open spec fn clamp_i32(x: int) -> int {
    if x > i32::MAX {
        i32::MAX as int
    } else if x < i32::MIN {
        i32::MIN as int
    } else {
        x
    }
}

/// The three digits of `f` (below 1000) without trailing zeros.
pub open spec fn fraction_text(f: nat) -> Seq<char> {
    let d1 = (f / 100) as int;
    let d2 = ((f / 10) % 10) as int;
    let d3 = (f % 10) as int;
    if d3 != 0 {
        seq![digit_char(d1), digit_char(d2), digit_char(d3)]
    } else if d2 != 0 {
        seq![digit_char(d1), digit_char(d2)]
    } else {
        seq![digit_char(d1)]
    }
}

/// How an episode number given in thousandths is written: a whole number
/// as an integer (limited to the `i32` range), otherwise as a decimal
/// without trailing zeros ("12.5").
pub open spec fn episode_number_text(n: int) -> Seq<char> {
    if n % 1000 == 0 {
        int_text(clamp_i32(n / 1000))
    } else {
        let m: nat = if n < 0 { (-n) as nat } else { n as nat };
        let sign = if n < 0 { seq!['-'] } else { Seq::<char>::empty() };
        sign + nat_text(m / 1000) + seq!['.'] + fraction_text(m % 1000)
    }
}

/// The text of an episode number (in thousandths) as AllAnime and the
/// players expect it: "12" for episode 12, "12.5" for episode 12.5.
pub fn episode_number_chars(n: i64) -> (r: Vec<char>)
    ensures
        r@ == episode_number_text(n as int),
{
    if n % 1000 == 0 {
        let q = n / 1000;
        let c: i64 = if q > i32::MAX as i64 {
            i32::MAX as i64
        } else if q < i32::MIN as i64 {
            i32::MIN as i64
        } else {
            q
        };
        return int_to_text(c);
    }
    let mut out: Vec<char> = Vec::new();
    let m: u64 = if n < 0 {
        out.push('-');
        ((-(n + 1)) as u64) + 1
    } else {
        n as u64
    };
    let ghost sign = out@;
    push_digits(m / 1000, &mut out);
    out.push('.');
    let f = m % 1000;
    out.push(digit_of(f / 100));
    let d2 = (f / 10) % 10;
    let d3 = f % 10;
    if d3 != 0 {
        out.push(digit_of(d2));
        out.push(digit_of(d3));
    } else if d2 != 0 {
        out.push(digit_of(d2));
    }
    assert(out@ =~= sign + nat_text((m / 1000) as nat) + seq!['.'] + fraction_text((m % 1000) as nat));
    out
}

/// The text of an episode number given in thousandths.
pub fn format_episode_number(n: i64) -> (r: String)
    ensures
        r@ == episode_number_text(n as int),
{
    let v = episode_number_chars(n);
    crate::text::string_from_chars(&v)
}

/// Reads an episode number such as "12" or "12.5" into thousandths.
pub fn parse_episode_number(s: &str) -> (r: Option<i64>)
    ensures
        r == parse_fixed(s@, 3),
{
    let v = crate::text::chars_of(s);
    parse_fixed_chars(&v, 3)
}


proof fn lemma_digit_char(d: int)
    requires
        0 <= d < 10,
    ensures
        is_digit(digit_char(d)),
        digit_value(digit_char(d)) == d,
        digit_char(d) != '.',
        digit_char(d) != '-',
        digit_char(d) != '+',
{
}

/// The digits of `n` are digits, contain no point, and read back as `n`.
proof fn lemma_nat_text(n: nat)
    ensures
        nat_text(n).len() > 0,
        all_digits(nat_text(n)),
        digits_value(nat_text(n)) == n,
        forall|j: int| 0 <= j < nat_text(n).len() ==> #[trigger] nat_text(n)[j] != '.',
        nat_text(n)[0] != '-' && nat_text(n)[0] != '+',
    decreases n,
{
    if n < 10 {
        lemma_digit_char(n as int);
        let t = nat_text(n);
        assert(t.drop_last() =~= Seq::<char>::empty());
        assert(digits_value(Seq::<char>::empty()) == 0);
        assert(digits_value(t) == digits_value(t.drop_last()) * 10 + digit_value(t.last()));
    } else {
        lemma_nat_text(n / 10);
        lemma_digit_char((n % 10) as int);
        let t = nat_text(n);
        assert(t.drop_last() =~= nat_text(n / 10));
        assert forall|j: int| 0 <= j < t.len() implies is_digit(#[trigger] t[j]) by {
            if j < t.len() - 1 {
                assert(t[j] == nat_text(n / 10)[j]);
            }
        }
        assert forall|j: int| 0 <= j < t.len() implies #[trigger] t[j] != '.' by {
            if j < t.len() - 1 {
                assert(t[j] == nat_text(n / 10)[j]);
            }
        }
        assert(t[0] == nat_text(n / 10)[0]);
        assert(t.last() == digit_char((n % 10) as int));
        assert(digits_value(t) == digits_value(t.drop_last()) * 10 + digit_value(t.last()));
        assert(n == (n / 10) * 10 + n % 10);
    }
}

proof fn lemma_dot_index_at(a: Seq<char>, b: Seq<char>)
    requires
        forall|j: int| 0 <= j < a.len() ==> a[j] != '.',
    ensures
        dot_index(a + seq!['.'] + b) == a.len(),
    decreases a.len(),
{
    let s = a + seq!['.'] + b;
    if a.len() == 0 {
        assert(s[0] == '.');
    } else {
        assert(s[0] == a[0]);
        let a1 = a.skip(1);
        assert forall|j: int| 0 <= j < a1.len() implies a1[j] != '.' by {
            assert(a1[j] == a[j + 1]);
        }
        lemma_dot_index_at(a1, b);
        assert(s.skip(1) =~= a1 + seq!['.'] + b);
    }
}

proof fn lemma_dot_index_none(a: Seq<char>)
    requires
        forall|j: int| 0 <= j < a.len() ==> a[j] != '.',
    ensures
        dot_index(a) == a.len(),
    decreases a.len(),
{
    if a.len() > 0 {
        let a1 = a.skip(1);
        assert forall|j: int| 0 <= j < a1.len() implies a1[j] != '.' by {
            assert(a1[j] == a[j + 1]);
        }
        lemma_dot_index_none(a1);
    }
}

/// The fraction digits of `f` read back as `f` thousandths.
proof fn lemma_fraction_text(f: nat)
    requires
        0 < f < 1000,
    ensures
        all_digits(fraction_text(f)),
        fraction_text(f).len() <= 3,
        forall|j: int| 0 <= j < fraction_text(f).len() ==> #[trigger] fraction_text(f)[j] != 'e'
            && fraction_text(f)[j] != 'E',
        digits_value(fraction_text(f)) * pow10((3 - fraction_text(f).len()) as nat) == f,
{
    let d1 = (f / 100) as int;
    let d2 = ((f / 10) % 10) as int;
    let d3 = (f % 10) as int;
    lemma_digit_char(d1);
    lemma_digit_char(d2);
    lemma_digit_char(d3);
    let t = fraction_text(f);
    assert(pow10(0) == 1);
    assert(pow10(1) == 10);
    assert(pow10(2) == 100);
    assert(pow10(3) == 1000);
    lemma_three_digits(f);
    let c1 = digit_char(d1);
    let c2 = digit_char(d2);
    let c3 = digit_char(d3);
    let s1 = seq![c1];
    let s2 = seq![c1, c2];
    let s3 = seq![c1, c2, c3];
    assert(s1.drop_last() =~= Seq::<char>::empty());
    assert(digits_value(Seq::<char>::empty()) == 0);
    assert(s1.last() == c1);
    assert(digits_value(s1) == digits_value(s1.drop_last()) * 10 + digit_value(s1.last()));
    assert(digits_value(s1) == d1);
    assert(s2.last() == c2);
    assert(s2.drop_last() =~= s1);
    assert(digits_value(s2) == digits_value(s2.drop_last()) * 10 + digit_value(s2.last()));
    assert(s3.last() == c3);
    assert(s3.drop_last() =~= s2);
    assert(digits_value(s3) == digits_value(s3.drop_last()) * 10 + digit_value(s3.last()));
    if d3 != 0 {
        assert(t =~= s3);
        assert(digits_value(t) * 1 == digits_value(t));
    } else if d2 != 0 {
        assert(t =~= s2);
    } else {
        assert(t =~= s1);
    }
}

proof fn lemma_three_digits(f: nat)
    requires
        f < 1000,
    ensures
        f == (((f / 100) * 10 + (f / 10) % 10) * 10 + f % 10),
        f % 10 == 0 ==> f == ((f / 100) * 10 + (f / 10) % 10) * 10,
        f % 10 == 0 && (f / 10) % 10 == 0 ==> f == (f / 100) * 100,
        f / 100 < 10,
{
    assert(f == 10 * (f / 10) + f % 10);
    assert(f / 10 == 10 * ((f / 10) / 10) + (f / 10) % 10);
    assert((f / 10) / 10 == f / 100);
}

/// Digits read one after the other.
proof fn lemma_digits_concat(a: Seq<char>, b: Seq<char>)
    ensures
        digits_value(a + b) == digits_value(a) * pow10(b.len()) + digits_value(b),
    decreases b.len(),
{
    if b.len() == 0 {
        assert(a + b =~= a);
        assert(digits_value(a) * 1 == digits_value(a));
    } else {
        lemma_digits_concat(a, b.drop_last());
        assert((a + b).drop_last() =~= a + b.drop_last());
        assert((a + b).last() == b.last());
        let x = digits_value(a);
        let y = digits_value(b.drop_last());
        let q = pow10(b.drop_last().len());
        assert(pow10(b.len()) == 10 * q);
        assert((x * q + y) * 10 + digit_value(b.last()) == x * (10 * q) + (y * 10 + digit_value(
            b.last(),
        ))) by (nonlinear_arith);
    }
}

/// Text without an exponent mark and without "inf": its value is that of
/// its digits with the point where it stands.
proof fn lemma_plain_units(ip: Seq<char>, fp: Seq<char>, has_point: bool)
    requires
        ip.len() > 0,
        all_digits(ip),
        all_digits(fp),
        fp.len() <= 3,
        has_point || fp.len() == 0,
    ensures
        unsigned_units(if has_point { ip + seq!['.'] + fp } else { ip }, 3) == Some(
            (digits_value(ip) * 1000 + digits_value(fp) * pow10((3 - fp.len()) as nat)) as nat,
        ),
{
    let body = if has_point { ip + seq!['.'] + fp } else { ip };
    assert forall|j: int| 0 <= j < body.len() implies body[j] != 'e' && body[j] != 'E' by {
        if j < ip.len() {
            assert(body[j] == ip[j]);
            assert(is_digit(ip[j]));
        } else if j == ip.len() {
        } else {
            assert(body[j] == fp[j - ip.len() - 1]);
            assert(is_digit(fp[j - ip.len() - 1]));
        }
    }
    lemma_exp_index_unique(body, body.len() as int);
    assert(body.take(body.len() as int) =~= body);
    assert forall|j: int| 0 <= j < ip.len() implies ip[j] != '.' by {
        assert(is_digit(ip[j]));
    }
    if has_point {
        lemma_dot_index_at(ip, fp);
        assert(body.take(ip.len() as int) =~= ip);
        assert(body.skip(ip.len() as int + 1) =~= fp);
    } else {
        lemma_dot_index_none(ip);
        assert(ip.take(ip.len() as int) =~= ip);
        assert(fp =~= Seq::<char>::empty());
    }
    assert(pow10(0) == 1);
    assert(pow10(1) == 10);
    assert(pow10(2) == 100);
    assert(pow10(3) == 1000);
    let mv = ip + fp;
    lemma_digits_concat(ip, fp);
    lemma_pow10_split(fp.len(), (3 - fp.len()) as nat);
    let k = fp.len();
    let x = digits_value(ip);
    let y = digits_value(fp);
    assert(pow10(3) == pow10(k) * pow10((3 - k) as nat)) by {
        assert(k + (3 - k) as nat == 3);
    }
    assert((x * pow10(k) + y) * pow10((3 - k) as nat) == x * (pow10(k) * pow10((3 - k) as nat)) + y
        * pow10((3 - k) as nat)) by (nonlinear_arith);
    if k == 3 {
        assert(mv.take(mv.len() as int) =~= mv);
        assert(y * pow10(0) == y);
    }
}

/// The digits of a number carry no exponent mark and do not read as "inf".
proof fn lemma_not_infinity(t: Seq<char>)
    requires
        t.len() > 0,
        is_digit(t[0]),
    ensures
        !is_infinity_text(t),
{
    reveal_strlit("inf");
    reveal_strlit("infinity");
    assert(lower_ascii(t[0]) == t[0]);
}

/// The text of an episode number reads back as that number, so distinct
/// episode numbers get distinct texts. Whole numbers beyond the `i32` range
/// are written clamped, and are left out.
pub proof fn episode_number_round_trip(n: i64)
    requires
        n % 1000 != 0 || (i32::MIN <= n / 1000 <= i32::MAX),
    ensures
        parse_fixed(episode_number_text(n as int), 3) == Some(n),
{
    let t = episode_number_text(n as int);
    assert(pow10(0) == 1);
    if n % 1000 == 0 {
        let q = n / 1000;
        assert(clamp_i32(q as int) == q);
        assert(n == q * 1000);
        let m: nat = if q < 0 { (-q) as nat } else { q as nat };
        lemma_nat_text(m);
        lemma_plain_units(nat_text(m), Seq::empty(), false);
        assert(digits_value(Seq::<char>::empty()) == 0);
        assert(0 * pow10(3) == 0);
        assert(unsigned_units(nat_text(m), 3) == Some((m * 1000) as nat));
        lemma_not_infinity(nat_text(m));
        assert(is_digit(nat_text(m)[0]));
        if q < 0 {
            assert(t =~= seq!['-'] + nat_text(m));
            assert(t[0] == '-');
            assert(t.skip(1) =~= nat_text(m));
            assert(clamp_i64(-((m * 1000) as int)) == n);
        } else {
            assert(t =~= nat_text(m));
            assert(t[0] != '-' && t[0] != '+');
            assert(clamp_i64((m * 1000) as int) == n);
        }
    } else {
        let m: nat = if n < 0 { (-n) as nat } else { n as nat };
        assert(m % 1000 != 0);
        let ip = nat_text(m / 1000);
        let fp = fraction_text(m % 1000);
        lemma_nat_text(m / 1000);
        lemma_fraction_text(m % 1000);
        lemma_plain_units(ip, fp, true);
        let body = ip + seq!['.'] + fp;
        assert(body[0] == ip[0]);
        assert(is_digit(ip[0]));
        lemma_not_infinity(body);
        assert(m == (m / 1000) * 1000 + m % 1000);
        assert(unsigned_units(body, 3) == Some(m));
        if n < 0 {
            assert(t =~= seq!['-'] + body);
            assert(t[0] == '-');
            assert(t.skip(1) =~= body);
            assert(clamp_i64(-(m as int)) == n);
        } else {
            assert(t =~= body);
            assert(t[0] != '-' && t[0] != '+');
            assert(clamp_i64(m as int) == n);
        }
    }
}

/// The integer that `str::parse::<i64>` reads from `s`: an optional sign,
/// then at least one digit, in the range of `i64`.
pub open spec fn int_value(s: Seq<char>) -> Option<i64> {
    let (neg, d) = if s.len() > 0 && s[0] == '-' {
        (true, s.skip(1))
    } else if s.len() > 0 && s[0] == '+' {
        (false, s.skip(1))
    } else {
        (false, s)
    };
    if d.len() > 0 && all_digits(d) {
        let v: int = if neg { -(digits_value(d) as int) } else { digits_value(d) as int };
        if i64::MIN <= v <= i64::MAX {
            Some(v as i64)
        } else {
            None
        }
    } else {
        None
    }
}

/// Reads a whole number as `str::parse::<i64>` does.
pub fn parse_int(s: &str) -> (r: Option<i64>)
    ensures
        r == int_value(s@),
{
    let v = crate::text::chars_of(s);
    let n = v.len();
    let mut b: usize = 0;
    let mut neg = false;
    if n > 0 && v[0] == '-' {
        b = 1;
        neg = true;
    } else if n > 0 && v[0] == '+' {
        b = 1;
    }
    proof {
        if b == 0 {
            assert(v@.subrange(0, n as int) =~= v@);
        } else {
            assert(v@.subrange(1, n as int) =~= v@.skip(1));
        }
    }
    if b >= n || !all_digits_exec(&v, b, n) {
        return None;
    }
    match read_digits(&v, b, n, MAG_LIMIT) {
        Some(m) => {
            if neg {
                if m == MAG_LIMIT {
                    Some(i64::MIN)
                } else {
                    let t = m as i64;
                    Some(-t)
                }
            } else if m > 9_223_372_036_854_775_807 {
                None
            } else {
                Some(m as i64)
            }
        },
        None => None,
    }
}

} // verus!
