//! Text read the way `str::parse::<f32>` reads it (an optional sign, then
//! `inf`, `infinity` or `nan` in any case, or decimal digits with at most one
//! `.` and an optional exponent), valued as a whole number of thousandths.
use vstd::prelude::*;
use crate::text::{split_on, split_spans, lemma_split_nonempty};
use crate::numbers::{
    is_digit, all_digits, digits_value, pow10, signed_text, all_digits_span,
    lemma_digits_value_nonneg, lemma_digits_value_bound,
};

verus! {

/// The largest magnitude a reading in thousandths may have (`i64::MAX`).
pub open spec fn max_thousandths() -> int {
    0x7fff_ffff_ffff_ffff
}

/// The code point of `c`, with the ASCII capitals taken to lower case.
pub open spec fn lower_code(c: char) -> int {
    let u = c as u32;
    if 65 <= u && u <= 90 {
        u + 32
    } else {
        u as int
    }
}

/// Whether `b` is `inf` in any mix of cases.
pub open spec fn is_inf_word(b: Seq<char>) -> bool {
    &&& b.len() == 3
    &&& lower_code(b[0]) == 105
    &&& lower_code(b[1]) == 110
    &&& lower_code(b[2]) == 102
}

/// Whether `b` is `infinity` in any mix of cases.
pub open spec fn is_infinity_word(b: Seq<char>) -> bool {
    &&& b.len() == 8
    &&& lower_code(b[0]) == 105
    &&& lower_code(b[1]) == 110
    &&& lower_code(b[2]) == 102
    &&& lower_code(b[3]) == 105
    &&& lower_code(b[4]) == 110
    &&& lower_code(b[5]) == 105
    &&& lower_code(b[6]) == 116
    &&& lower_code(b[7]) == 121
}

/// Whether `b` is `nan` in any mix of cases.
pub open spec fn is_nan_word(b: Seq<char>) -> bool {
    &&& b.len() == 3
    &&& lower_code(b[0]) == 110
    &&& lower_code(b[1]) == 97
    &&& lower_code(b[2]) == 110
}

/// Whether `c` opens an exponent.
pub open spec fn is_exp_mark(c: char) -> bool {
    c == 'e' || c == 'E'
}

/// The index of the first exponent mark of `b` at or after `i`, or the
/// length of `b` where there is none.
pub open spec fn mark_from(b: Seq<char>, i: int) -> int
    decreases b.len() - i,
{
    if i < 0 || i >= b.len() {
        b.len() as int
    } else if is_exp_mark(b[i]) {
        i
    } else {
        mark_from(b, i + 1)
    }
}

/// `d` times ten to the power `s`, rounded toward zero.
pub open spec fn scaled(d: int, s: int) -> int {
    if s >= 0 {
        d * pow10(s as nat)
    } else {
        d / pow10((-s) as nat)
    }
}

/// `m`, or `max_thousandths()` where `m` is larger.
pub open spec fn capped(m: int) -> int {
    if m > max_thousandths() {
        max_thousandths()
    } else {
        m
    }
}

/// The magnitude in thousandths of unsigned decimal float text `b` (digits
/// with at most one `.`, at least one digit, then optionally `e` or `E` and
/// a signed exponent): its value rounded toward zero and capped at
/// `max_thousandths()`; `None` where `b` is no such text.
pub open spec fn number_magnitude(b: Seq<char>) -> Option<int> {
    let p = mark_from(b, 0);
    let parts = split_on(b.take(p), '.');
    let whole = parts[0];
    let frac = if parts.len() == 2 {
        parts[1]
    } else {
        Seq::<char>::empty()
    };
    let exp = if p < b.len() {
        signed_text(b.skip(p + 1))
    } else {
        Some(0int)
    };
    match exp {
        Some(x) => if parts.len() <= 2 && all_digits(whole) && all_digits(frac) && whole.len()
            + frac.len() > 0 {
            Some(capped(scaled(digits_value(whole + frac), x + 3 - frac.len())))
        } else {
            None
        },
        None => None,
    }
}

/// The magnitude in thousandths of unsigned float text `b`: infinity reads
/// `max_thousandths()`, NaN reads 0, a number reads `number_magnitude`;
/// `None` where `b` is no float.
pub open spec fn float_magnitude(b: Seq<char>) -> Option<int> {
    if is_inf_word(b) || is_infinity_word(b) {
        Some(max_thousandths())
    } else if is_nan_word(b) {
        Some(0)
    } else {
        number_magnitude(b)
    }
}

/// What `s.parse::<f32>().unwrap_or(0.0)` reads, in thousandths: the exact
/// value that `s` writes (not that value rounded to `f32` precision), rounded
/// toward zero, with infinities and magnitudes past `max_thousandths()` at
/// `±max_thousandths()`, and NaN and text that is no float at 0.
pub open spec fn float_thousandths_or_zero(s: Seq<char>) -> int {
    let neg = s.len() > 0 && s[0] == '-';
    let body = if s.len() > 0 && (s[0] == '-' || s[0] == '+') {
        s.drop_first()
    } else {
        s
    };
    match float_magnitude(body) {
        Some(m) => if neg {
            -m
        } else {
            m
        },
        None => 0,
    }
}

/// The bound past which an exponent is held as one more than it.
spec fn exponent_cap() -> int {
    0x1_0000_0000_0000_0000_0000_0000
}

/// `m`, or one more than `max_thousandths()` where `m` is larger.
spec fn saturated(m: int) -> int {
    if m > max_thousandths() {
        max_thousandths() + 1
    } else {
        m
    }
}

proof fn lemma_pow10_grows(a: nat, b: nat)
    requires
        a <= b,
    ensures
        0 < pow10(a) <= pow10(b),
    decreases b,
{
    if b > a {
        lemma_pow10_grows(a, (b - 1) as nat);
    } else if a > 0 {
        lemma_pow10_grows((a - 1) as nat, (a - 1) as nat);
    }
}

proof fn lemma_all_digits_concat(x: Seq<char>, y: Seq<char>)
    requires
        all_digits(x),
        all_digits(y),
    ensures
        all_digits(x + y),
{
    assert forall|i: int| 0 <= i < (x + y).len() implies is_digit(#[trigger] (x + y)[i]) by {
        if i < x.len() {
            assert((x + y)[i] == x[i]);
        } else {
            assert((x + y)[i] == y[i - x.len()]);
        }
    }
}

proof fn lemma_all_digits_take(x: Seq<char>, n: int)
    requires
        all_digits(x),
        0 <= n <= x.len(),
    ensures
        all_digits(x.take(n)),
        all_digits(x.skip(n)),
{
    assert forall|i: int| 0 <= i < x.take(n).len() implies is_digit(#[trigger] x.take(n)[i]) by {
        assert(x.take(n)[i] == x[i]);
    }
    assert forall|i: int| 0 <= i < x.skip(n).len() implies is_digit(#[trigger] x.skip(n)[i]) by {
        assert(x.skip(n)[i] == x[n + i]);
    }
}

/// The digits of `x` followed by those of `y` write `x`'s number shifted
/// past `y`'s digits, plus `y`'s number.
proof fn lemma_digits_concat(x: Seq<char>, y: Seq<char>)
    requires
        all_digits(x),
        all_digits(y),
    ensures
        digits_value(x + y) == digits_value(x) * pow10(y.len()) + digits_value(y),
    decreases y.len(),
{
    if y.len() == 0 {
        assert(x + y =~= x);
    } else {
        let yd = y.drop_last();
        lemma_all_digits_take(y, y.len() - 1);
        assert(yd =~= y.take(y.len() - 1));
        lemma_digits_concat(x, yd);
        assert((x + y).drop_last() =~= x + yd);
        assert((x + y).last() == y.last());
        let a = digits_value(x);
        let p = pow10(yd.len());
        let b = digits_value(yd);
        let c = (y.last() as u32) - 48;
        assert((a * p + b) * 10 + c == a * (10 * p) + (b * 10 + c)) by (nonlinear_arith);
    }
}

/// Dropping the last `k` digits of `x` divides its number by ten to the `k`.
proof fn lemma_digits_drop_tail(x: Seq<char>, k: int)
    requires
        all_digits(x),
        0 <= k <= x.len(),
    ensures
        digits_value(x) / pow10(k as nat) == digits_value(x.take(x.len() - k)),
{
    let t = x.take(x.len() - k);
    let r = x.skip(x.len() - k);
    lemma_all_digits_take(x, x.len() - k);
    assert(x =~= t + r);
    lemma_digits_concat(t, r);
    lemma_digits_value_bound(r);
    lemma_digits_value_nonneg(t);
    vstd::arithmetic::div_mod::lemma_fundamental_div_mod_converse(
        digits_value(x),
        pow10(k as nat),
        digits_value(t),
        digits_value(r),
    );
}

/// With no more digits than the exponent takes away, nothing is left.
proof fn lemma_scaled_vanishes(x: Seq<char>, s: int)
    requires
        all_digits(x),
        -s >= x.len(),
    ensures
        scaled(digits_value(x), s) == 0,
{
    lemma_digits_value_bound(x);
    lemma_pow10_grows(x.len(), (-s) as nat);
    vstd::arithmetic::div_mod::lemma_fundamental_div_mod_converse(
        digits_value(x),
        pow10((-s) as nat),
        0,
        digits_value(x),
    );
}

/// From ten to the twentieth on, any nonzero number is past the cap.
proof fn lemma_scaled_overflows(d: int, s1: int, s2: int)
    requires
        d >= 0,
        s1 >= 20,
        s2 >= 20,
    ensures
        capped(scaled(d, s1)) == capped(scaled(d, s2)),
        saturated(scaled(d, s1)) == saturated(scaled(d, s2)),
{
    if d > 0 {
        reveal_with_fuel(pow10, 21);
        assert(pow10(20) == 100_000_000_000_000_000_000);
        lemma_pow10_grows(20, s1 as nat);
        lemma_pow10_grows(20, s2 as nat);
        let p1 = pow10(s1 as nat);
        let p2 = pow10(s2 as nat);
        assert(d * p1 >= p1) by (nonlinear_arith)
            requires
                d >= 1,
                p1 > 0,
        ;
        assert(d * p2 >= p2) by (nonlinear_arith)
            requires
                d >= 1,
                p2 > 0,
        ;
    } else {
        assert(d * pow10(s1 as nat) == 0);
        assert(d * pow10(s2 as nat) == 0);
    }
}

/// Appends digit `c` to a saturated running number.
fn push_digit(acc: u128, c: char) -> (r: u128)
    requires
        acc <= max_thousandths() + 1,
        is_digit(c),
    ensures
        r <= max_thousandths() + 1,
        acc > max_thousandths() ==> r == acc,
        acc <= max_thousandths() ==> r == saturated(acc * 10 + ((c as u32) - 48)),
{
    if acc > 0x7fff_ffff_ffff_ffff {
        acc
    } else {
        let u = (c as u32) - 48;
        let n = acc * 10 + (u as u128);
        if n > 0x7fff_ffff_ffff_ffff {
            0x8000_0000_0000_0000
        } else {
            n
        }
    }
}

/// The saturated number that the first `tw` digits of `v[a..e]` and then
/// the first `tf` digits of `v[c..d]` write.
fn read_digits(v: &Vec<char>, a: usize, e: usize, c: usize, d: usize, tw: usize, tf: usize) -> (r:
    u128)
    requires
        a <= e <= v.len(),
        c <= d <= v.len(),
        all_digits(v@.subrange(a as int, e as int)),
        all_digits(v@.subrange(c as int, d as int)),
        tw <= e - a,
        tf <= d - c,
        tf > 0 ==> tw == e - a,
    ensures
        r == saturated(
            digits_value(
                (v@.subrange(a as int, e as int) + v@.subrange(c as int, d as int)).take(tw + tf),
            ),
        ),
{
    let ghost w = v@.subrange(a as int, e as int);
    let ghost f = v@.subrange(c as int, d as int);
    let ghost all = w + f;
    proof {
        lemma_all_digits_concat(w, f);
        assert(all.take(0) =~= Seq::<char>::empty());
    }
    let mut acc: u128 = 0;
    let mut j: usize = 0;
    while j < tw
        invariant
            a <= e <= v.len(),
            w == v@.subrange(a as int, e as int),
            all == w + f,
            all_digits(all),
            j <= tw <= e - a,
            acc <= max_thousandths() + 1,
            acc == saturated(digits_value(all.take(j as int))),
        decreases tw - j,
    {
        let ch = v[a + j];
        proof {
            assert(all[j as int] == w[j as int]);
            assert(all.take(j + 1).drop_last() =~= all.take(j as int));
            assert(all.take(j + 1).last() == ch);
            lemma_all_digits_take(all, j as int);
            lemma_digits_value_nonneg(all.take(j as int));
            assert(is_digit(all[j as int]));
        }
        acc = push_digit(acc, ch);
        j = j + 1;
    }
    let mut q: usize = 0;
    while q < tf
        invariant
            c <= d <= v.len(),
            f == v@.subrange(c as int, d as int),
            all == w + f,
            all_digits(all),
            q <= tf <= d - c,
            tf > 0 ==> j == w.len(),
            acc <= max_thousandths() + 1,
            acc == saturated(digits_value(all.take(j + q))),
        decreases tf - q,
    {
        let ch = v[c + q];
        proof {
            let k = j + q;
            assert(all[k] == f[q as int]);
            assert(all.take(k + 1).drop_last() =~= all.take(k));
            assert(all.take(k + 1).last() == ch);
            lemma_all_digits_take(all, k);
            lemma_digits_value_nonneg(all.take(k));
            assert(is_digit(all[k]));
        }
        acc = push_digit(acc, ch);
        q = q + 1;
    }
    acc
}

/// The capped magnitude in thousandths of the digits `v[a..e]` then
/// `v[c..d]` times ten to the power `s`.
fn scaled_capped(v: &Vec<char>, a: usize, e: usize, c: usize, d: usize, s: i128) -> (r: u64)
    requires
        a <= e <= v.len(),
        c <= d <= v.len(),
        all_digits(v@.subrange(a as int, e as int)),
        all_digits(v@.subrange(c as int, d as int)),
        -0x2_0000_0000_0000_0000_0000_0000 <= s <= 0x2_0000_0000_0000_0000_0000_0000,
    ensures
        r == capped(
            scaled(
                digits_value(v@.subrange(a as int, e as int) + v@.subrange(c as int, d as int)),
                s as int,
            ),
        ),
{
    let ghost w = v@.subrange(a as int, e as int);
    let ghost f = v@.subrange(c as int, d as int);
    let ghost all = w + f;
    let ghost dv = digits_value(all);
    proof {
        lemma_all_digits_concat(w, f);
        lemma_digits_value_nonneg(all);
        assert(all.take(all.len() as int) =~= all);
    }
    let wl = e - a;
    let fl = d - c;
    let n: i128 = (wl as i128) + (fl as i128);
    if s >= 0 {
        let mut acc = read_digits(v, a, e, c, d, wl, fl);
        let steps: u32 = if s > 20 {
            20
        } else {
            s as u32
        };
        let mut k: u32 = 0;
        proof {
            assert(dv * pow10(0) == dv);
        }
        while k < steps
            invariant
                k <= steps <= 20,
                dv >= 0,
                acc <= max_thousandths() + 1,
                acc == saturated(dv * pow10(k as nat)),
            decreases steps - k,
        {
            let ghost p = pow10(k as nat);
            proof {
                lemma_pow10_grows(0, k as nat);
                assert(pow10((k + 1) as nat) == 10 * p);
                assert(dv * (10 * p) == (dv * p) * 10) by (nonlinear_arith);
                assert(dv * p >= 0) by (nonlinear_arith)
                    requires
                        dv >= 0,
                        p > 0,
                ;
            }
            acc = push_digit(acc, '0');
            k = k + 1;
        }
        proof {
            if s > 20 {
                lemma_scaled_overflows(dv, s as int, 20);
            }
        }
        if acc > 0x7fff_ffff_ffff_ffff {
            0x7fff_ffff_ffff_ffff
        } else {
            acc as u64
        }
    } else {
        let k: i128 = 0 - s;
        if k > n {
            proof {
                lemma_scaled_vanishes(all, s as int);
            }
            return 0;
        }
        let t: i128 = n - k;
        let (tw, tf) = if t <= (wl as i128) {
            (t as usize, 0usize)
        } else {
            (wl, (t - (wl as i128)) as usize)
        };
        let acc = read_digits(v, a, e, c, d, tw, tf);
        proof {
            lemma_digits_drop_tail(all, k as int);
            lemma_all_digits_take(all, t as int);
            lemma_digits_value_nonneg(all.take(t as int));
        }
        if acc > 0x7fff_ffff_ffff_ffff {
            0x7fff_ffff_ffff_ffff
        } else {
            acc as u64
        }
    }
}

/// Reads one exponent: `Some` exactly where `v[lo..hi]` is signed integer
/// text, holding its value, or one past `exponent_cap()` on the side of its
/// sign where its magnitude passes the cap.
fn exponent_at(v: &Vec<char>, lo: usize, hi: usize) -> (r: Option<i128>)
    requires
        lo <= hi <= v.len(),
    ensures
        ({
            let t = v@.subrange(lo as int, hi as int);
            match r {
                Some(x) => match signed_text(t) {
                    Some(y) => if y > exponent_cap() {
                        x == exponent_cap() + 1
                    } else if y < -exponent_cap() {
                        x == -(exponent_cap() + 1)
                    } else {
                        x == y
                    },
                    None => false,
                },
                None => signed_text(t) is None,
            }
        }),
{
    let ghost t = v@.subrange(lo as int, hi as int);
    let neg = lo < hi && v[lo] == '-';
    let signed = lo < hi && (v[lo] == '-' || v[lo] == '+');
    let st = if signed {
        lo + 1
    } else {
        lo
    };
    let ghost body = v@.subrange(st as int, hi as int);
    proof {
        if signed {
            assert(t[0] == v@[lo as int]);
            assert(t.drop_first() =~= body);
        } else {
            if t.len() > 0 {
                assert(t[0] == v@[lo as int]);
            }
            assert(t =~= body);
        }
    }
    if st == hi || !all_digits_span(v, st, hi) {
        return None;
    }
    let mut acc: u128 = 0;
    let mut i = st;
    proof {
        assert(v@.subrange(st as int, st as int) =~= Seq::<char>::empty());
    }
    while i < hi
        invariant
            st <= i <= hi <= v.len(),
            body == v@.subrange(st as int, hi as int),
            all_digits(body),
            acc <= exponent_cap() + 1,
            acc == (if digits_value(v@.subrange(st as int, i as int)) > exponent_cap() {
                exponent_cap() + 1
            } else {
                digits_value(v@.subrange(st as int, i as int))
            }),
        decreases hi - i,
    {
        let ch = v[i];
        let ghost p = v@.subrange(st as int, i as int);
        let ghost q = v@.subrange(st as int, i + 1);
        proof {
            assert(q.drop_last() =~= p);
            assert(q.last() == ch);
            assert(body[i - st] == ch);
            assert(is_digit(ch));
            assert(all_digits(p)) by {
                assert forall|k: int| 0 <= k < p.len() implies is_digit(#[trigger] p[k]) by {
                    assert(p[k] == body[k]);
                }
            }
            lemma_digits_value_nonneg(p);
        }
        let u = (ch as u32) - 48;
        if acc <= 0x1_0000_0000_0000_0000_0000_0000 {
            acc = acc * 10 + (u as u128);
            if acc > 0x1_0000_0000_0000_0000_0000_0000 {
                acc = 0x1_0000_0000_0000_0000_0000_0001;
            }
        }
        i = i + 1;
    }
    proof {
        assert(v@.subrange(st as int, i as int) =~= body);
        lemma_digits_value_nonneg(body);
    }
    let m: i128 = acc as i128;
    if neg {
        Some(0 - m)
    } else {
        Some(m)
    }
}

/// The index of the first exponent mark in `v[lo..hi]`, or `hi`.
fn mark_index(v: &Vec<char>, lo: usize, hi: usize) -> (p: usize)
    requires
        lo <= hi <= v.len(),
    ensures
        lo <= p <= hi,
        p - lo == mark_from(v@.subrange(lo as int, hi as int), 0),
{
    let ghost b = v@.subrange(lo as int, hi as int);
    let mut i = lo;
    while i < hi
        invariant
            lo <= i <= hi <= v.len(),
            b == v@.subrange(lo as int, hi as int),
            mark_from(b, 0) == mark_from(b, i - lo),
        decreases hi - i,
    {
        proof {
            assert(b[i - lo] == v@[i as int]);
        }
        if v[i] == 'e' || v[i] == 'E' {
            return i;
        }
        i = i + 1;
    }
    i
}

fn lower_at(v: &Vec<char>, i: usize) -> (r: u32)
    requires
        i < v.len(),
    ensures
        r == lower_code(v@[i as int]),
{
    let u = v[i] as u32;
    if 65 <= u && u <= 90 {
        u + 32
    } else {
        u
    }
}

/// The magnitude that `v[lo..hi]` reads as a word for infinity or NaN.
fn word_magnitude(v: &Vec<char>, lo: usize, hi: usize) -> (r: Option<u64>)
    requires
        lo <= hi <= v.len(),
    ensures
        ({
            let b = v@.subrange(lo as int, hi as int);
            match r {
                Some(m) => (is_inf_word(b) || is_infinity_word(b)) && m == max_thousandths() || (
                !(is_inf_word(b) || is_infinity_word(b)) && is_nan_word(b) && m == 0),
                None => !(is_inf_word(b) || is_infinity_word(b) || is_nan_word(b)),
            }
        }),
{
    let ghost b = v@.subrange(lo as int, hi as int);
    let len = hi - lo;
    proof {
        if len >= 3 {
            assert(b[0] == v@[lo as int]);
            assert(b[1] == v@[lo + 1]);
            assert(b[2] == v@[lo + 2]);
        }
        if len == 8 {
            assert(b[3] == v@[lo + 3]);
            assert(b[4] == v@[lo + 4]);
            assert(b[5] == v@[lo + 5]);
            assert(b[6] == v@[lo + 6]);
            assert(b[7] == v@[lo + 7]);
        }
    }
    if len == 3 && lower_at(v, lo) == 105 && lower_at(v, lo + 1) == 110 && lower_at(v, lo + 2)
        == 102 {
        return Some(0x7fff_ffff_ffff_ffff);
    }
    if len == 8 && lower_at(v, lo) == 105 && lower_at(v, lo + 1) == 110 && lower_at(v, lo + 2)
        == 102 && lower_at(v, lo + 3) == 105 && lower_at(v, lo + 4) == 110 && lower_at(v, lo + 5)
        == 105 && lower_at(v, lo + 6) == 116 && lower_at(v, lo + 7) == 121 {
        return Some(0x7fff_ffff_ffff_ffff);
    }
    if len == 3 && lower_at(v, lo) == 110 && lower_at(v, lo + 1) == 97 && lower_at(v, lo + 2)
        == 110 {
        return Some(0);
    }
    None
}

/// The magnitude in thousandths of unsigned decimal float text `v[lo..hi]`.
fn number_magnitude_span(v: &Vec<char>, lo: usize, hi: usize) -> (r: Option<u64>)
    requires
        lo <= hi <= v.len(),
    ensures
        ({
            let b = v@.subrange(lo as int, hi as int);
            match r {
                Some(m) => number_magnitude(b) == Some(m as int),
                None => number_magnitude(b) is None,
            }
        }),
{
    let ghost b = v@.subrange(lo as int, hi as int);
    let m = mark_index(v, lo, hi);
    let ghost p = m - lo;
    let ghost mant = b.take(p);
    proof {
        assert(mant =~= v@.subrange(lo as int, m as int));
        lemma_split_nonempty(mant, '.');
    }
    let spans = split_spans(v, lo, m, '.');
    if spans.len() > 2 {
        return None;
    }
    let ghost parts = split_on(mant, '.');
    let (a, e) = spans[0];
    let (c, d) = if spans.len() == 2 {
        spans[1]
    } else {
        (m, m)
    };
    let ghost whole = parts[0];
    let ghost frac = if parts.len() == 2 {
        parts[1]
    } else {
        Seq::<char>::empty()
    };
    proof {
        assert(whole == v@.subrange(a as int, e as int));
        if spans.len() == 2 {
            assert(frac == v@.subrange(c as int, d as int));
        } else {
            assert(v@.subrange(c as int, d as int) =~= frac);
        }
    }
    let ex: i128 = if m < hi {
        proof {
            assert(b.skip(p + 1) =~= v@.subrange(m + 1, hi as int));
        }
        match exponent_at(v, m + 1, hi) {
            Some(x) => x,
            None => {
                return None;
            },
        }
    } else {
        0
    };
    if e == a && d == c {
        return None;
    }
    if !all_digits_span(v, a, e) || !all_digits_span(v, c, d) {
        return None;
    }
    let fl = d - c;
    let s: i128 = ex + 3 - (fl as i128);
    let r = scaled_capped(v, a, e, c, d, s);
    proof {
        let all = whole + frac;
        lemma_all_digits_concat(whole, frac);
        lemma_digits_value_nonneg(all);
        assert(fl <= 0xffff_ffff_ffff_ffff);
        assert(whole.len() <= 0xffff_ffff_ffff_ffff);
        if m < hi {
            let y = signed_text(b.skip(p + 1))->0;
            if y > exponent_cap() {
                lemma_scaled_overflows(digits_value(all), y + 3 - fl, s as int);
            } else if y < -exponent_cap() {
                lemma_scaled_vanishes(all, y + 3 - fl);
                lemma_scaled_vanishes(all, s as int);
            }
        }
    }
    Some(r)
}

/// The magnitude in thousandths of unsigned float text `v[lo..hi]`.
fn float_magnitude_span(v: &Vec<char>, lo: usize, hi: usize) -> (r: Option<u64>)
    requires
        lo <= hi <= v.len(),
    ensures
        ({
            let b = v@.subrange(lo as int, hi as int);
            match r {
                Some(m) => float_magnitude(b) == Some(m as int),
                None => float_magnitude(b) is None,
            }
        }),
{
    match word_magnitude(v, lo, hi) {
        Some(m) => Some(m),
        None => number_magnitude_span(v, lo, hi),
    }
}

/// `v[lo..hi]` read the way `parse::<f32>().unwrap_or(0.0)` reads it, in
/// thousandths of the exact value it writes, rounded toward zero: infinities
/// and magnitudes past `i64::MAX` thousandths read `±i64::MAX`, NaN and text
/// that is no float read 0.
pub fn parse_float_thousandths_or_zero(v: &Vec<char>, lo: usize, hi: usize) -> (r: i64)
    requires
        lo <= hi <= v.len(),
    ensures
        r == float_thousandths_or_zero(v@.subrange(lo as int, hi as int)),
{
    let ghost s = v@.subrange(lo as int, hi as int);
    let neg = lo < hi && v[lo] == '-';
    let signed = lo < hi && (v[lo] == '-' || v[lo] == '+');
    let start = if signed {
        lo + 1
    } else {
        lo
    };
    proof {
        if signed {
            assert(s[0] == v@[lo as int]);
            assert(s.drop_first() =~= v@.subrange(start as int, hi as int));
        } else {
            if s.len() > 0 {
                assert(s[0] == v@[lo as int]);
            }
            assert(s =~= v@.subrange(start as int, hi as int));
        }
    }
    match float_magnitude_span(v, start, hi) {
        Some(m) => {
            let x: i64 = m as i64;
            if neg {
                0 - x
            } else {
                x
            }
        },
        None => 0,
    }
}

} // verus!
