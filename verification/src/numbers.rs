//! The number formats of `str::parse` for integers.
use vstd::prelude::*;

verus! {

/// Whether `c` is one of `0` to `9`.
pub open spec fn is_digit(c: char) -> bool {
    48 <= (c as u32) && (c as u32) <= 57
}

/// Whether every character of `s` is a digit.
pub open spec fn all_digits(s: Seq<char>) -> bool {
    forall|i: int| 0 <= i < s.len() ==> is_digit(#[trigger] s[i])
}

/// The number that the decimal digits `s` write.
pub open spec fn digits_value(s: Seq<char>) -> int
    decreases s.len(),
{
    if s.len() == 0 {
        0
    } else {
        digits_value(s.drop_last()) * 10 + ((s.last() as u32) - 48)
    }
}

/// `s` as `+`? followed by one or more digits, the way unsigned integers parse.
pub open spec fn unsigned_text(s: Seq<char>) -> Option<int> {
    let body = if s.len() > 0 && s[0] == '+' {
        s.drop_first()
    } else {
        s
    };
    if body.len() > 0 && all_digits(body) {
        Some(digits_value(body))
    } else {
        None
    }
}

/// `s` as `+` or `-`, optional, followed by one or more digits, the way
/// signed integers parse.
pub open spec fn signed_text(s: Seq<char>) -> Option<int> {
    if s.len() > 0 && s[0] == '-' {
        let body = s.drop_first();
        if body.len() > 0 && all_digits(body) {
            Some(-digits_value(body))
        } else {
            None
        }
    } else {
        unsigned_text(s)
    }
}

/// What `s.parse::<uN>().unwrap_or(0)` gives for an unsigned type whose
/// largest value is `max`.
pub open spec fn unsigned_or_zero(s: Seq<char>, max: int) -> int {
    match unsigned_text(s) {
        Some(v) => if v <= max {
            v
        } else {
            0
        },
        None => 0,
    }
}

/// What `s.parse::<iN>().unwrap_or(0)` gives for a signed type with range
/// `min..=max`.
pub open spec fn signed_or_zero(s: Seq<char>, min: int, max: int) -> int {
    match signed_text(s) {
        Some(v) => if min <= v <= max {
            v
        } else {
            0
        },
        None => 0,
    }
}

pub(crate) proof fn lemma_digits_value_nonneg(s: Seq<char>)
    requires
        all_digits(s),
    ensures
        digits_value(s) >= 0,
    decreases s.len(),
{
    if s.len() > 0 {
        assert(all_digits(s.drop_last())) by {
            assert forall|i: int| 0 <= i < s.drop_last().len() implies is_digit(
                #[trigger] s.drop_last()[i],
            ) by {
                assert(s.drop_last()[i] == s[i]);
            }
        }
        lemma_digits_value_nonneg(s.drop_last());
    }
}

/// Ten to the power `n`.
pub open spec fn pow10(n: nat) -> int
    decreases n,
{
    if n == 0 {
        1
    } else {
        10 * pow10((n - 1) as nat)
    }
}

pub(crate) proof fn lemma_digits_value_bound(s: Seq<char>)
    requires
        all_digits(s),
    ensures
        0 <= digits_value(s) < pow10(s.len()),
    decreases s.len(),
{
    if s.len() > 0 {
        assert(all_digits(s.drop_last())) by {
            assert forall|i: int| 0 <= i < s.drop_last().len() implies is_digit(
                #[trigger] s.drop_last()[i],
            ) by {
                assert(s.drop_last()[i] == s[i]);
            }
        }
        lemma_digits_value_bound(s.drop_last());
        assert(is_digit(s[s.len() - 1]));
    }
}

proof fn lemma_unsigned_text_nonneg(s: Seq<char>)
    ensures
        unsigned_text(s) matches Some(v) ==> v >= 0,
{
    let body = if s.len() > 0 && s[0] == '+' {
        s.drop_first()
    } else {
        s
    };
    if body.len() > 0 && all_digits(body) {
        lemma_digits_value_nonneg(body);
    }
}

/// The digits `v[lo..hi]`, if they are one or more digits and write a
/// number no larger than `max`.
pub fn parse_digits(v: &Vec<char>, lo: usize, hi: usize, max: u64) -> (r: Option<u64>)
    requires
        lo <= hi <= v.len(),
        max <= 0x0fff_ffff_ffff_ffff,
    ensures
        r is Some <==> ({
            let t = v@.subrange(lo as int, hi as int);
            t.len() > 0 && all_digits(t) && digits_value(t) <= max
        }),
        r matches Some(x) ==> x == digits_value(v@.subrange(lo as int, hi as int)),
{
    let ghost t = v@.subrange(lo as int, hi as int);
    if lo == hi {
        return None;
    }
    let mut acc: u64 = 0;
    let mut over = false;
    let mut i = lo;
    while i < hi
        invariant
            lo <= i <= hi <= v.len(),
            max <= 0x0fff_ffff_ffff_ffff,
            t == v@.subrange(lo as int, hi as int),
            all_digits(v@.subrange(lo as int, i as int)),
            over ==> digits_value(v@.subrange(lo as int, i as int)) > max,
            !over ==> acc == digits_value(v@.subrange(lo as int, i as int)) && acc <= max,
        decreases hi - i,
    {
        let c = v[i];
        let u = c as u32;
        let ghost p = v@.subrange(lo as int, i as int);
        let ghost q = v@.subrange(lo as int, i + 1);
        proof {
            assert(q.drop_last() =~= p);
            assert(q.last() == c);
        }
        if u < 48 || u > 57 {
            proof {
                assert(t[i - lo] == c);
            }
            return None;
        }
        proof {
            assert forall|k: int| 0 <= k < q.len() implies is_digit(#[trigger] q[k]) by {
                if k < p.len() {
                    assert(q[k] == p[k]);
                }
            }
            lemma_digits_value_nonneg(p);
        }
        if !over {
            acc = acc * 10 + ((u - 48) as u64);
            if acc > max {
                over = true;
            }
        }
        i = i + 1;
    }
    proof {
        assert(v@.subrange(lo as int, i as int) =~= t);
    }
    if over {
        None
    } else {
        Some(acc)
    }
}

/// `v[lo..hi].parse::<uN>().unwrap_or(0)` for the unsigned type whose largest
/// value is `max`.
pub fn parse_unsigned_or_zero(v: &Vec<char>, lo: usize, hi: usize, max: u64) -> (r: u64)
    requires
        lo <= hi <= v.len(),
        max <= 0x0fff_ffff_ffff_ffff,
    ensures
        r == unsigned_or_zero(v@.subrange(lo as int, hi as int), max as int),
{
    let ghost s = v@.subrange(lo as int, hi as int);
    let mut start = lo;
    if lo < hi && v[lo] == '+' {
        start = lo + 1;
        proof {
            assert(s[0] == '+');
            assert(s.drop_first() =~= v@.subrange(start as int, hi as int));
        }
    } else {
        proof {
            if s.len() > 0 {
                assert(s[0] == v@[lo as int]);
            }
        }
    }
    match parse_digits(v, start, hi, max) {
        Some(x) => x,
        None => 0,
    }
}

/// `v[lo..hi].parse::<iN>().unwrap_or(0)` for the signed type with range
/// `-min_mag..=max`.
pub fn parse_signed_or_zero(v: &Vec<char>, lo: usize, hi: usize, min_mag: u64, max: u64) -> (r:
    i64)
    requires
        lo <= hi <= v.len(),
        max <= min_mag <= 0x0fff_ffff_ffff_ffff,
    ensures
        r == signed_or_zero(v@.subrange(lo as int, hi as int), -(min_mag as int), max as int),
{
    let ghost s = v@.subrange(lo as int, hi as int);
    if lo < hi && v[lo] == '-' {
        proof {
            assert(s[0] == '-');
            assert(s.drop_first() =~= v@.subrange(lo + 1, hi as int));
        }
        match parse_digits(v, lo + 1, hi, min_mag) {
            Some(x) => {
                proof {
                    assert(all_digits(v@.subrange(lo + 1, hi as int)));
                }
                let y: i64 = x as i64;
                0 - y
            },
            None => {
                proof {
                    let b = v@.subrange(lo + 1, hi as int);
                    if b.len() > 0 && all_digits(b) {
                        assert(digits_value(b) > min_mag);
                    }
                }
                0
            },
        }
    } else {
        proof {
            if s.len() > 0 {
                assert(s[0] == v@[lo as int]);
            }
        }
        let x = parse_unsigned_or_zero(v, lo, hi, max);
        proof {
            lemma_unsigned_text_nonneg(s);
        }
        x as i64
    }
}

/// Whether `v[lo..hi]` is all digits.
pub fn all_digits_span(v: &Vec<char>, lo: usize, hi: usize) -> (b: bool)
    requires
        lo <= hi <= v.len(),
    ensures
        b == all_digits(v@.subrange(lo as int, hi as int)),
{
    let mut i = lo;
    while i < hi
        invariant
            lo <= i <= hi <= v.len(),
            forall|k: int| lo <= k < i ==> is_digit(#[trigger] v@[k]),
        decreases hi - i,
    {
        let u = v[i] as u32;
        if u < 48 || u > 57 {
            proof {
                assert(v@.subrange(lo as int, hi as int)[i - lo] == v@[i as int]);
            }
            return false;
        }
        i = i + 1;
    }
    proof {
        let t = v@.subrange(lo as int, hi as int);
        assert forall|k: int| 0 <= k < t.len() implies is_digit(#[trigger] t[k]) by {
            assert(t[k] == v@[lo + k]);
        }
    }
    true
}

} // verus!
