//! Decimal quantities read from text, and the conversion of ounces to millilitres.

use vstd::prelude::*;
use crate::text::{bounded_value, find_char, first_index, lemma_first_index, parse_digits, take_prefix};

verus! {

/// An exact decimal number: `digits / 10^scale`, below zero when `negative`.
#[derive(Debug, Clone, Copy, PartialEq, Eq, Structural)]
pub struct Decimal {
    pub negative: bool,
    pub digits: u64,
    pub scale: u32,
}

/// The most digits, as a number, that a decimal may hold.
pub const MAX_DECIMAL_DIGITS: u64 = 1000000000000000000;

/// The most digits that a decimal may hold after its point.
pub const MAX_DECIMAL_SCALE: u32 = 18;

/// The largest exponent, in size, that a decimal text may carry.
pub const MAX_EXPONENT: u64 = 1000;

/// Millilitres in one ounce, in thousandths: 1 oz = 29.574 ml.
pub const ML_PER_OZ_THOUSANDTHS: u64 = 29574;

pub open spec fn pow10(n: nat) -> nat
    decreases n,
{
    if n == 0 {
        1
    } else {
        10 * pow10((n - 1) as nat)
    }
}

/// The digits before the point, or all of `text` when there is no point.
pub open spec fn whole_part(text: Seq<char>) -> Seq<char> {
    let p = first_index(text, '.');
    if p < 0 {
        text
    } else {
        text.subrange(0, p)
    }
}

/// The digits after the point, or none when there is no point.
pub open spec fn fraction_part(text: Seq<char>) -> Seq<char> {
    let p = first_index(text, '.');
    if p < 0 {
        Seq::empty()
    } else {
        text.subrange(p + 1, text.len() as int)
    }
}

/// Whether a number's text starts with a minus sign.
pub open spec fn has_minus(text: Seq<char>) -> bool {
    text.len() > 0 && text[0] == '-'
}

/// A number's text without its leading sign, if it has one.
pub open spec fn sign_free(text: Seq<char>) -> Seq<char> {
    if text.len() > 0 && (text[0] == '+' || text[0] == '-') {
        text.drop_first()
    } else {
        text
    }
}

/// Where the exponent marker, `e` or `E`, first stands; -1 if nowhere.
pub open spec fn exponent_index(text: Seq<char>) -> int {
    let a = first_index(text, 'e');
    let b = first_index(text, 'E');
    if a < 0 {
        b
    } else if b < 0 || a < b {
        a
    } else {
        b
    }
}

/// The value of an exponent's text: an optional sign, then digits.
pub open spec fn exponent_value(text: Seq<char>) -> Option<int> {
    match bounded_value(sign_free(text), MAX_EXPONENT as nat) {
        Some(v) => Some(if has_minus(text) { -v } else { v as int }),
        None => None,
    }
}

/// `m` times `10^e`, within the bounds of `Decimal`.
pub open spec fn shifted(m: Decimal, e: int) -> Option<Decimal> {
    if e <= m.scale {
        if m.scale - e <= MAX_DECIMAL_SCALE {
            Some(Decimal { negative: false, digits: m.digits, scale: (m.scale - e) as u32 })
        } else {
            None
        }
    } else if m.digits * pow10((e - m.scale) as nat) <= MAX_DECIMAL_DIGITS {
        Some(Decimal { negative: false, digits: (m.digits * pow10((e - m.scale) as nat)) as u64, scale: 0 })
    } else {
        None
    }
}

/// What a number's text with no sign reads as: a decimal, then an optional
/// exponent.
pub open spec fn unsigned_number_of(text: Seq<char>) -> Option<Decimal> {
    let p = exponent_index(text);
    if p < 0 {
        unsigned_decimal_of(text)
    } else {
        match (unsigned_decimal_of(text.subrange(0, p)), exponent_value(text.subrange(p + 1, text.len() as int))) {
            (Some(m), Some(e)) => shifted(m, e),
            _ => None,
        }
    }
}

/// What a number's text reads as: an optional sign, digits with at most one
/// point and at least one digit, an optional exponent (`e` or `E`, an optional
/// sign, digits), within the bounds of `Decimal`. Zero is never negative.
pub open spec fn decimal_of(text: Seq<char>) -> Option<Decimal> {
    match unsigned_number_of(sign_free(text)) {
        Some(d) => Some(Decimal { negative: has_minus(text) && d.digits > 0, digits: d.digits, scale: d.scale }),
        None => None,
    }
}

/// What a decimal text with no sign reads as.
pub open spec fn unsigned_decimal_of(text: Seq<char>) -> Option<Decimal> {
    let f = fraction_part(text);
    match bounded_value(whole_part(text) + f, MAX_DECIMAL_DIGITS as nat) {
        Some(v) => if f.len() <= MAX_DECIMAL_SCALE {
            Some(Decimal { negative: false, digits: v as u64, scale: f.len() as u32 })
        } else {
            None
        },
        None => None,
    }
}

fn append_range(dst: &mut Vec<char>, src: &Vec<char>, lo: usize, hi: usize)
    requires
        lo <= hi <= src@.len(),
    ensures
        final(dst)@ == old(dst)@ + src@.subrange(lo as int, hi as int),
{
    let mut i: usize = lo;
    while i < hi
        invariant
            lo <= i <= hi <= src@.len(),
            dst@ == old(dst)@ + src@.subrange(lo as int, i as int),
        decreases hi - i,
    {
        dst.push(src[i]);
        i += 1;
        assert(dst@ =~= old(dst)@ + src@.subrange(lo as int, i as int));
    }
}

fn split_sign(text: &Vec<char>) -> (r: (bool, Vec<char>))
    ensures
        r.0 == has_minus(text@),
        r.1@ == sign_free(text@),
{
    let mut rest: Vec<char> = Vec::new();
    if text.len() > 0 && (text[0] == '+' || text[0] == '-') {
        append_range(&mut rest, text, 1, text.len());
        assert(rest@ =~= sign_free(text@));
        (text[0] == '-', rest)
    } else {
        append_range(&mut rest, text, 0, text.len());
        assert(rest@ =~= sign_free(text@));
        (false, rest)
    }
}

fn find_exponent(text: &Vec<char>) -> (r: Option<usize>)
    ensures
        r matches Some(p) ==> exponent_index(text@) == p,
        r is None ==> exponent_index(text@) < 0,
{
    proof {
        lemma_first_index(text@, 'e');
        lemma_first_index(text@, 'E');
    }
    match (find_char(text, 'e'), find_char(text, 'E')) {
        (None, None) => None,
        (Some(a), None) => Some(a),
        (None, Some(b)) => Some(b),
        (Some(a), Some(b)) => if a < b { Some(a) } else { Some(b) },
    }
}

fn parse_exponent(text: &Vec<char>) -> (r: Option<i64>)
    ensures
        r matches Some(v) ==> exponent_value(text@) == Some(v as int),
        r is None ==> exponent_value(text@) is None,
{
    let (negative, body) = split_sign(text);
    assert(body@.subrange(0, body@.len() as int) =~= body@);
    match parse_digits(&body, 0, body.len(), MAX_EXPONENT) {
        Some(v) => Some(if negative { -(v as i64) } else { v as i64 }),
        None => None,
    }
}

fn shift(m: Decimal, e: i64) -> (r: Option<Decimal>)
    requires
        m.digits <= MAX_DECIMAL_DIGITS,
        -1000 <= e <= 1000,
    ensures
        r == shifted(m, e as int),
{
    if e <= m.scale as i64 {
        let s = m.scale as i64 - e;
        if s <= MAX_DECIMAL_SCALE as i64 {
            Some(Decimal { negative: false, digits: m.digits, scale: s as u32 })
        } else {
            None
        }
    } else {
        let k = (e - m.scale as i64) as u64;
        let mut acc: u64 = m.digits;
        let mut i: u64 = 0;
        while i < k
            invariant
                i <= k,
                k == e - m.scale,
                acc == m.digits * pow10(i as nat),
                acc <= MAX_DECIMAL_DIGITS,
            decreases k - i,
        {
            if acc > MAX_DECIMAL_DIGITS / 10 {
                proof {
                    lemma_pow10_monotone((i + 1) as nat, k as nat);
                    let a = m.digits;
                    let p = pow10((i + 1) as nat);
                    let q = pow10(k as nat);
                    assert(p == 10 * pow10(i as nat));
                    assert(a * p == a * pow10(i as nat) * 10) by (nonlinear_arith)
                        requires
                            p == 10 * pow10(i as nat),
                    ;
                    assert(a * q >= a * p) by (nonlinear_arith)
                        requires
                            p <= q,
                    ;
                }
                return None;
            }
            proof {
                assert(m.digits * pow10((i + 1) as nat) == m.digits * pow10(i as nat) * 10) by (nonlinear_arith)
                    requires
                        pow10((i + 1) as nat) == 10 * pow10(i as nat),
                ;
            }
            acc = acc * 10;
            i += 1;
        }
        Some(Decimal { negative: false, digits: acc, scale: 0 })
    }
}

/// Reads a number such as `4`, `+2.5`, `-.5`, `3.` or `1.5e-3`, as float
/// parsing writes it, within the bounds of `Decimal`.
pub fn parse_decimal(text: &Vec<char>) -> (r: Option<Decimal>)
    ensures
        r == decimal_of(text@),
{
    let (negative, u) = split_sign(text);
    let number = match find_exponent(&u) {
        None => parse_unsigned_decimal(&u),
        Some(p) => {
            proof {
                lemma_first_index(u@, 'e');
                lemma_first_index(u@, 'E');
            }
            let n = u.len();
            assert(p < n);
            let mantissa = take_prefix(&u, p);
            let mut exponent: Vec<char> = Vec::new();
            append_range(&mut exponent, &u, p + 1, n);
            assert(exponent@ =~= u@.subrange(p + 1, u@.len() as int));
            match (parse_unsigned_decimal(&mantissa), parse_exponent(&exponent)) {
                (Some(m), Some(e)) => shift(m, e),
                _ => None,
            }
        },
    };
    match number {
        Some(d) => Some(Decimal { negative: negative && d.digits > 0, digits: d.digits, scale: d.scale }),
        None => None,
    }
}

fn parse_unsigned_decimal(text: &Vec<char>) -> (r: Option<Decimal>)
    ensures
        r == unsigned_decimal_of(text@),
{
    proof {
        lemma_first_index(text@, '.');
    }
    let n = text.len();
    let mut all: Vec<char> = Vec::new();
    let scale: usize;
    match find_char(text, '.') {
        Some(p) => {
            append_range(&mut all, text, 0, p);
            append_range(&mut all, text, p + 1, n);
            scale = n - p - 1;
            assert(all@ =~= whole_part(text@) + fraction_part(text@));
        },
        None => {
            append_range(&mut all, text, 0, n);
            scale = 0;
            assert(all@ =~= whole_part(text@) + fraction_part(text@));
        },
    }
    assert(all@.subrange(0, all@.len() as int) =~= all@);
    let v = parse_digits(&all, 0, all.len(), MAX_DECIMAL_DIGITS);
    match v {
        Some(v) => if scale <= MAX_DECIMAL_SCALE as usize {
            Some(Decimal { negative: false, digits: v, scale: scale as u32 })
        } else {
            None
        },
        None => None,
    }
}

/// Millilitres in a number of ounces, rounded toward zero and held within the
/// range of an `i32`.
pub open spec fn ml_of_ounces(oz: Decimal) -> int {
    let size = (oz.digits * ML_PER_OZ_THOUSANDTHS) as int / (1000 * pow10(oz.scale as nat)) as int;
    if !oz.negative {
        if size > i32::MAX {
            i32::MAX as int
        } else {
            size
        }
    } else if size > 0x8000_0000 {
        i32::MIN as int
    } else {
        -size
    }
}

fn power_of_ten(n: u32) -> (r: u128)
    requires
        n <= MAX_DECIMAL_SCALE,
    ensures
        r == pow10(n as nat),
        1 <= r <= 1000000000000000000,
{
    proof {
        reveal_with_fuel(pow10, 19);
        assert(pow10(18) == 1000000000000000000);
    }
    let mut r: u128 = 1;
    let mut i: u32 = 0;
    while i < n
        invariant
            i <= n <= MAX_DECIMAL_SCALE,
            r == pow10(i as nat),
            pow10(18) == 1000000000000000000,
        decreases n - i,
    {
        proof {
            lemma_pow10_monotone((i + 1) as nat, 18);
        }
        r = r * 10;
        i += 1;
    }
    proof {
        lemma_pow10_monotone(0, n as nat);
        lemma_pow10_monotone(n as nat, 18);
    }
    r
}

proof fn lemma_pow10_monotone(a: nat, b: nat)
    requires
        a <= b,
    ensures
        pow10(a) <= pow10(b),
    decreases b,
{
    if a < b {
        lemma_pow10_monotone(a, (b - 1) as nat);
    }
}

/// Converts ounces to whole millilitres (1 oz = 29.574 ml), rounding toward zero.
pub fn ounces_to_ml(oz: Decimal) -> (r: i32)
    requires
        oz.scale <= MAX_DECIMAL_SCALE,
    ensures
        r == ml_of_ounces(oz),
{
    let scale = power_of_ten(oz.scale);
    let d: u128 = oz.digits as u128;
    assert(d * 29574 <= 0xffff_ffff_ffff_ffff * 29574) by (nonlinear_arith)
        requires
            d <= 0xffff_ffff_ffff_ffff,
    ;
    let num: u128 = d * ML_PER_OZ_THOUSANDTHS as u128;
    let den: u128 = 1000 * scale;
    let size = num / den;
    if !oz.negative {
        if size > 0x7fff_ffff {
            i32::MAX
        } else {
            size as i32
        }
    } else if size > 0x8000_0000 {
        i32::MIN
    } else {
        (0 - size as i64) as i32
    }
}

} // verus!
