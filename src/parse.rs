use vstd::prelude::*;

use crate::text::chars_of;

verus! {

/// Whether a character is an ASCII decimal digit.
pub open spec fn is_digit(c: char) -> bool {
    '0' <= c && c <= '9'
}

/// Whether every character is a decimal digit.
pub open spec fn all_digits(s: Seq<char>) -> bool {
    forall|i: int| 0 <= i < s.len() ==> is_digit(#[trigger] s[i])
}

/// The number that a run of decimal digits spells; zero when empty.
pub open spec fn digits_value(s: Seq<char>) -> nat
    decreases s.len(),
{
    if s.len() == 0 {
        0
    } else {
        digits_value(s.drop_last()) * 10 + ((s.last() as u32) - ('0' as u32)) as nat
    }
}

/// A text without the one leading `+` it may have.
pub open spec fn unsigned_body(s: Seq<char>) -> Seq<char> {
    if s.len() > 0 && s[0] == '+' {
        s.drop_first()
    } else {
        s
    }
}

/// The digits of an unsigned integer: an optional `+`, then one or more
/// digits.
pub open spec fn integer_digits(s: Seq<char>) -> Option<Seq<char>> {
    let b = unsigned_body(s);
    if b.len() > 0 && all_digits(b) {
        Some(b)
    } else {
        None
    }
}

/// The position of the first `.`, or the length when there is none.
pub open spec fn point_at(b: Seq<char>) -> int
    decreases b.len(),
{
    if b.len() == 0 {
        0
    } else if b[0] == '.' {
        0
    } else {
        1 + point_at(b.drop_first())
    }
}

/// Exactly `scale` fraction digits: extra ones are cut, missing ones are
/// zeros.
pub open spec fn scaled_fraction(frac: Seq<char>, scale: nat) -> Seq<char> {
    if frac.len() >= scale {
        frac.subrange(0, scale as int)
    } else {
        frac + Seq::new((scale - frac.len()) as nat, |i: int| '0')
    }
}

/// The digits of a non-negative decimal number counted in units of
/// `10^-scale`: an optional `+`, digits, and optionally a `.` and more
/// digits, with at least one digit in all. Digits past `scale` places are
/// cut.
pub open spec fn fixed_digits(s: Seq<char>, scale: nat) -> Option<Seq<char>> {
    let b = unsigned_body(s);
    let p = point_at(b);
    let whole = b.subrange(0, p);
    let frac = if p < b.len() {
        b.subrange(p + 1, b.len() as int)
    } else {
        Seq::empty()
    };
    if all_digits(whole) && all_digits(frac) && whole.len() + frac.len() > 0 {
        Some(whole + scaled_fraction(frac, scale))
    } else {
        None
    }
}

/// The value of parsed digits when it fits in `bound`.
pub open spec fn bounded(d: Option<Seq<char>>, bound: nat) -> Option<nat> {
    match d {
        Some(ds) => if digits_value(ds) <= bound {
            Some(digits_value(ds))
        } else {
            None
        },
        None => None,
    }
}

proof fn lemma_point_at(b: Seq<char>, i: int)
    requires
        0 <= i <= b.len(),
        forall|k: int| 0 <= k < i ==> b[k] != '.',
        i == b.len() || b[i] == '.',
    ensures
        point_at(b) == i,
    decreases b.len(),
{
    if b.len() > 0 && i > 0 {
        lemma_point_at(b.drop_first(), i - 1);
    }
}

proof fn lemma_digits_grow(s: Seq<char>, i: int)
    requires
        0 <= i <= s.len(),
        all_digits(s),
    ensures
        digits_value(s.subrange(0, i)) <= digits_value(s),
    decreases s.len() - i,
{
    if i < s.len() {
        lemma_digits_grow(s, i + 1);
        assert(s.subrange(0, i + 1).drop_last() =~= s.subrange(0, i));
        assert(is_digit(s[i]));
    } else {
        assert(s.subrange(0, i) =~= s);
    }
}

/// The value of a run of digits, when it fits in 128 bits.
pub fn digits_to_u128(d: &Vec<char>) -> (r: Option<u128>)
    requires
        all_digits(d@),
    ensures
        match bounded(Some(d@), u128::MAX as nat) {
            Some(n) => r == Some(n as u128),
            None => r is None,
        },
{
    let mut acc: u128 = 0;
    let mut i: usize = 0;
    while i < d.len()
        invariant
            all_digits(d@),
            i <= d@.len(),
            acc == digits_value(d@.subrange(0, i as int)),
        decreases d@.len() - i,
    {
        let c = d[i];
        proof {
            assert(is_digit(d@[i as int]));
            assert(d@.subrange(0, i + 1).drop_last() =~= d@.subrange(0, i as int));
            lemma_digits_grow(d@, i + 1);
        }
        let digit = ((c as u32) - ('0' as u32)) as u128;
        if acc > (u128::MAX - digit) / 10 {
            proof {
                assert(digits_value(d@.subrange(0, i + 1)) == acc * 10 + digit);
                assert(acc * 10 + digit > u128::MAX) by (nonlinear_arith)
                    requires
                        acc > (u128::MAX - digit) / 10,
                        digit <= 9,
                ;
            }
            return None;
        }
        proof {
            assert(acc * 10 + digit <= u128::MAX) by (nonlinear_arith)
                requires
                    acc <= (u128::MAX - digit) / 10,
                    digit <= 9,
            ;
        }
        acc = acc * 10 + digit;
        i += 1;
    }
    proof {
        assert(d@.subrange(0, i as int) =~= d@);
    }
    Some(acc)
}

/// The characters of a text past its one leading `+`, if any.
fn body_of(s: &str) -> (r: Vec<char>)
    ensures
        r@ == unsigned_body(s@),
{
    let cs = chars_of(s);
    if cs.len() > 0 && cs[0] == '+' {
        let mut r: Vec<char> = Vec::new();
        let mut i: usize = 1;
        while i < cs.len()
            invariant
                1 <= i <= cs@.len(),
                r@ == cs@.subrange(1, i as int),
            decreases cs@.len() - i,
        {
            r.push(cs[i]);
            i += 1;
            assert(r@ =~= cs@.subrange(1, i as int));
        }
        assert(r@ =~= cs@.drop_first());
        r
    } else {
        cs
    }
}

/// Whether a run of characters is all digits.
fn check_digits(s: &Vec<char>) -> (r: bool)
    ensures
        r == all_digits(s@),
{
    let mut i: usize = 0;
    while i < s.len()
        invariant
            i <= s@.len(),
            forall|k: int| 0 <= k < i ==> is_digit(#[trigger] s@[k]),
        decreases s@.len() - i,
    {
        if !(s[i] >= '0' && s[i] <= '9') {
            assert(!is_digit(s@[i as int]));
            return false;
        }
        i += 1;
    }
    true
}

/// Parses an unsigned integer: an optional `+`, then one or more digits, with
/// a value that fits in 128 bits.
pub fn parse_integer(s: &str) -> (r: Option<u128>)
    ensures
        match bounded(integer_digits(s@), u128::MAX as nat) {
            Some(n) => r == Some(n as u128),
            None => r is None,
        },
{
    let b = body_of(s);
    if b.len() == 0 || !check_digits(&b) {
        return None;
    }
    digits_to_u128(&b)
}

/// Parses a non-negative decimal number in units of `10^-scale`, cutting
/// digits past `scale` places.
pub fn parse_fixed(s: &str, scale: usize) -> (r: Option<u128>)
    ensures
        match bounded(fixed_digits(s@, scale as nat), u128::MAX as nat) {
            Some(n) => r == Some(n as u128),
            None => r is None,
        },
{
    let b = body_of(s);
    let mut p: usize = 0;
    while p < b.len() && b[p] != '.'
        invariant
            p <= b@.len(),
            forall|k: int| 0 <= k < p ==> b@[k] != '.',
        decreases b@.len() - p,
    {
        p += 1;
    }
    proof {
        lemma_point_at(b@, p as int);
    }
    let mut digits: Vec<char> = Vec::new();
    let mut i: usize = 0;
    while i < p
        invariant
            i <= p <= b@.len(),
            digits@ == b@.subrange(0, i as int),
        decreases p - i,
    {
        digits.push(b[i]);
        i += 1;
        assert(digits@ =~= b@.subrange(0, i as int));
    }
    let whole_len = digits.len();
    let ghost whole = digits@;
    let mut frac: Vec<char> = Vec::new();
    if p < b.len() {
        let mut j: usize = p + 1;
        while j < b.len()
            invariant
                p < b@.len(),
                p + 1 <= j <= b@.len(),
                frac@ == b@.subrange(p + 1, j as int),
            decreases b@.len() - j,
        {
            frac.push(b[j]);
            j += 1;
            assert(frac@ =~= b@.subrange(p + 1, j as int));
        }
    } else {
        assert(frac@ =~= Seq::<char>::empty());
    }
    if !check_digits(&digits) || !check_digits(&frac) || whole_len + frac.len() == 0 {
        return None;
    }
    let ghost f = frac@;
    let mut k: usize = 0;
    while k < scale
        invariant
            all_digits(whole),
            all_digits(f),
            digits@.len() == whole.len() + k,
            k <= scale,
            digits@ == whole + scaled_fraction(f, k as nat),
            all_digits(digits@),
            frac@ == f,
        decreases scale - k,
    {
        let c = if k < frac.len() {
            frac[k]
        } else {
            '0'
        };
        digits.push(c);
        proof {
            if k < f.len() {
                assert(f[k as int] == c);
                if k + 1 <= f.len() {
                    assert(scaled_fraction(f, (k + 1) as nat) =~= scaled_fraction(f, k as nat).push(c));
                }
            } else {
                assert(scaled_fraction(f, (k + 1) as nat) =~= scaled_fraction(f, k as nat).push('0'));
            }
            assert(digits@ =~= whole + scaled_fraction(f, (k + 1) as nat));
            assert forall|m: int| 0 <= m < digits@.len() implies is_digit(#[trigger] digits@[m]) by {
                if m < digits@.len() - 1 {
                } else {
                    if k < f.len() {
                        assert(is_digit(f[k as int]));
                    }
                }
            }
        }
        k += 1;
    }
    digits_to_u128(&digits)
}

} // verus!
