//! Recognition of the numeric tokens of a mesh file: decimal indices and
//! floating-point literals in the syntax that `str::parse::<f32>` accepts.

use vstd::prelude::*;

verus! {

pub open spec fn is_digit(c: char) -> bool {
    '0' <= c <= '9'
}

pub open spec fn all_digits(s: Seq<char>) -> bool {
    forall|i: int| 0 <= i < s.len() ==> is_digit(#[trigger] s[i])
}

/// The number written by the decimal digits `s`.
pub open spec fn digits_value(s: Seq<char>) -> nat
    decreases s.len(),
{
    if s.len() == 0 {
        0
    } else {
        digits_value(s.drop_last()) * 10 + (s.last() as nat - '0' as nat) as nat
    }
}

pub open spec fn is_sign(c: char) -> bool {
    c == '+' || c == '-'
}

/// `s` without a leading `+`, if it has one.
pub open spec fn without_plus(s: Seq<char>) -> Seq<char> {
    if s.len() > 0 && s[0] == '+' {
        s.drop_first()
    } else {
        s
    }
}

/// `s` without a leading sign, if it has one.
pub open spec fn without_sign(s: Seq<char>) -> Seq<char> {
    if s.len() > 0 && is_sign(s[0]) {
        s.drop_first()
    } else {
        s
    }
}

/// The text of an unsigned integer: an optional `+` and at least one digit.
pub open spec fn is_unsigned_text(s: Seq<char>) -> bool {
    without_plus(s).len() > 0 && all_digits(without_plus(s))
}

/// What a 1-based reference `s` into a pool of `count` entries designates:
/// the 0-based position, or nothing when `s` is not a number or is out of range.
pub open spec fn one_based(s: Seq<char>, count: nat) -> Option<nat> {
    if is_unsigned_text(s) && 1 <= digits_value(without_plus(s)) <= count {
        Some((digits_value(without_plus(s)) - 1) as nat)
    } else {
        None
    }
}

proof fn lemma_digits_value_grows(s: Seq<char>, c: char)
    requires
        is_digit(c),
    ensures
        digits_value(s.push(c)) >= digits_value(s),
        digits_value(s.push(c)) == digits_value(s) * 10 + (c as nat - '0' as nat),
{
    assert(s.push(c).drop_last() =~= s);
}

/// Resolves the 1-based reference `s` into a pool of `count` entries.
pub fn resolve_one_based(s: &Vec<char>, count: usize) -> (r: Option<usize>)
    ensures
        r matches Some(i) ==> one_based(s@, count as nat) == Some(i as nat),
        r is None ==> one_based(s@, count as nat) is None,
{
    let start: usize = if s.len() > 0 && s[0] == '+' {
        1
    } else {
        0
    };
    let ghost d = without_plus(s@);
    assert(d =~= s@.skip(start as int));
    if start == s.len() {
        return None;
    }
    let mut value: u128 = 0;
    let mut too_big = false;
    let mut i: usize = start;
    while i < s.len()
        invariant
            start <= i <= s@.len(),
            d =~= s@.skip(start as int),
            d == without_plus(s@),
            all_digits(s@.subrange(start as int, i as int)),
            !too_big ==> value == digits_value(s@.subrange(start as int, i as int)) && value
                <= count,
            too_big ==> digits_value(s@.subrange(start as int, i as int)) > count,
        decreases s@.len() - i,
    {
        let c = s[i];
        if !('0' <= c && c <= '9') {
            assert(d[i - start] == c);
            assert(!all_digits(d));
            return None;
        }
        proof {
            let t = s@.subrange(start as int, i as int);
            assert(s@.subrange(start as int, i + 1) =~= t.push(c));
            lemma_digits_value_grows(t, c);
        }
        if !too_big {
            value = value * 10 + (c as u32 - '0' as u32) as u128;
            if value > count as u128 {
                too_big = true;
            }
        }
        i = i + 1;
    }
    assert(s@.subrange(start as int, i as int) =~= d);
    if too_big || value == 0 {
        None
    } else {
        Some((value - 1) as usize)
    }
}

/// `c` with an ASCII capital letter folded to lower case.
pub open spec fn ascii_lower(c: char) -> char {
    if 'A' <= c <= 'Z' {
        ((c as u32) + 32) as char
    } else {
        c
    }
}

/// `s` spells `w` (lower case) when ASCII letters are folded to lower case.
pub open spec fn spells(s: Seq<char>, w: Seq<char>) -> bool {
    s.len() == w.len() && forall|i: int| 0 <= i < s.len() ==> ascii_lower(#[trigger] s[i]) == w[i]
}

/// Digits with at most one decimal point, and at least one digit.
pub open spec fn is_mantissa(s: Seq<char>) -> bool {
    &&& forall|i: int| 0 <= i < s.len() ==> is_digit(#[trigger] s[i]) || s[i] == '.'
    &&& forall|i: int, j: int|
        0 <= i < s.len() && 0 <= j < s.len() && #[trigger] s[i] == '.' && #[trigger] s[j] == '.'
            ==> i == j
    &&& exists|i: int| 0 <= i < s.len() && is_digit(#[trigger] s[i])
}

/// An optional sign followed by at least one digit.
pub open spec fn is_exponent(s: Seq<char>) -> bool {
    without_sign(s).len() > 0 && all_digits(without_sign(s))
}

/// A mantissa, optionally followed by `e` or `E` and an exponent.
pub open spec fn is_number_text(s: Seq<char>) -> bool {
    is_mantissa(s) || exists|k: int|
        0 <= k < s.len() && ascii_lower(#[trigger] s[k]) == 'e' && is_mantissa(s.take(k))
            && is_exponent(s.skip(k + 1))
}

/// The texts that `str::parse::<f32>` accepts: an optional sign followed by
/// `inf`, `infinity`, `nan` (in any case) or a decimal number.
pub open spec fn is_float_text(s: Seq<char>) -> bool {
    let b = without_sign(s);
    spells(b, seq!['i', 'n', 'f']) || spells(b, seq!['i', 'n', 'f', 'i', 'n', 'i', 't', 'y'])
        || spells(b, seq!['n', 'a', 'n']) || is_number_text(b)
}

fn is_digit_char(c: char) -> (r: bool)
    ensures
        r == is_digit(c),
{
    '0' <= c && c <= '9'
}

/// Whether `c` folds to the lower-case letter `w`.
fn folds_to(c: char, w: char) -> (r: bool)
    requires
        'a' <= w <= 'z',
    ensures
        r == (ascii_lower(c) == w),
{
    c == w || ('A' <= c && c <= 'Z' && c as u32 + 32 == w as u32)
}

/// Whether `s[lo..hi]` spells the lower-case word `w`.
fn spells_at(s: &Vec<char>, lo: usize, hi: usize, w: &[char]) -> (r: bool)
    requires
        lo <= hi <= s@.len(),
        forall|i: int| 0 <= i < w@.len() ==> 'a' <= #[trigger] w@[i] <= 'z',
    ensures
        r == spells(s@.subrange(lo as int, hi as int), w@),
{
    if hi - lo != w.len() {
        return false;
    }
    let mut i: usize = 0;
    while i < w.len()
        invariant
            hi - lo == w@.len(),
            lo <= hi <= s@.len(),
            forall|i: int| 0 <= i < w@.len() ==> 'a' <= #[trigger] w@[i] <= 'z',
            i <= w@.len(),
            forall|j: int| 0 <= j < i ==> ascii_lower(#[trigger] s@[lo + j]) == w@[j],
        decreases w@.len() - i,
    {
        if !folds_to(s[lo + i], w[i]) {
            assert(s@.subrange(lo as int, hi as int)[i as int] == s@[lo + i]);
            return false;
        }
        i = i + 1;
    }
    assert forall|j: int| 0 <= j < w@.len() implies ascii_lower(
        #[trigger] s@.subrange(lo as int, hi as int)[j],
    ) == w@[j] by {
        assert(s@.subrange(lo as int, hi as int)[j] == s@[lo + j]);
    }
    true
}

/// Whether `s[lo..hi]` is a mantissa.
fn mantissa_at(s: &Vec<char>, lo: usize, hi: usize) -> (r: bool)
    requires
        lo <= hi <= s@.len(),
    ensures
        r == is_mantissa(s@.subrange(lo as int, hi as int)),
{
    let ghost t = s@.subrange(lo as int, hi as int);
    let mut dot: Option<usize> = None;
    let mut digit: Option<usize> = None;
    let mut i: usize = lo;
    while i < hi
        invariant
            lo <= i <= hi <= s@.len(),
            t == s@.subrange(lo as int, hi as int),
            forall|j: int| lo <= j < i ==> is_digit(#[trigger] s@[j]) || s@[j] == '.',
            dot matches Some(d) ==> lo <= d < i && s@[d as int] == '.' && forall|j: int|
                lo <= j < i && #[trigger] s@[j] == '.' ==> j == d,
            dot is None ==> forall|j: int| lo <= j < i ==> #[trigger] s@[j] != '.',
            digit matches Some(d) ==> lo <= d < i && is_digit(s@[d as int]),
            digit is None ==> forall|j: int| lo <= j < i ==> !is_digit(#[trigger] s@[j]),
        decreases hi - i,
    {
        let c = s[i];
        if c == '.' {
            if let Some(d) = dot {
                assert(t[d - lo] == '.' && t[i - lo] == '.');
                return false;
            }
            dot = Some(i);
        } else if is_digit_char(c) {
            digit = Some(i);
        } else {
            assert(t[i - lo] == c);
            return false;
        }
        i = i + 1;
    }
    match digit {
        Some(d) => {
            assert(t[d - lo] == s@[d as int]);
            assert forall|a: int, b: int|
                0 <= a < t.len() && 0 <= b < t.len() && #[trigger] t[a] == '.' && #[trigger] t[b]
                    == '.' implies a == b by {
                assert(t[a] == s@[lo + a]);
                assert(t[b] == s@[lo + b]);
            }
            assert forall|a: int| 0 <= a < t.len() implies is_digit(#[trigger] t[a]) || t[a]
                == '.' by {
                assert(t[a] == s@[lo + a]);
            }
            true
        },
        None => {
            assert forall|a: int| 0 <= a < t.len() implies !is_digit(#[trigger] t[a]) by {
                assert(t[a] == s@[lo + a]);
            }
            false
        },
    }
}

/// Whether `s[lo..hi]` is an exponent: an optional sign and at least one digit.
fn exponent_at(s: &Vec<char>, lo: usize, hi: usize) -> (r: bool)
    requires
        lo <= hi <= s@.len(),
    ensures
        r == is_exponent(s@.subrange(lo as int, hi as int)),
{
    let ghost t = s@.subrange(lo as int, hi as int);
    let start: usize = if lo < hi && (s[lo] == '+' || s[lo] == '-') {
        lo + 1
    } else {
        lo
    };
    assert(without_sign(t) =~= s@.subrange(start as int, hi as int));
    if start == hi {
        return false;
    }
    let mut i: usize = start;
    while i < hi
        invariant
            start <= i <= hi <= s@.len(),
            t == s@.subrange(lo as int, hi as int),
            without_sign(t) == s@.subrange(start as int, hi as int),
            forall|j: int| start <= j < i ==> is_digit(#[trigger] s@[j]),
        decreases hi - i,
    {
        if !is_digit_char(s[i]) {
            assert(without_sign(t)[i - start] == s@[i as int]);
            assert(!all_digits(without_sign(t)));
            return false;
        }
        i = i + 1;
    }
    assert forall|j: int| 0 <= j < without_sign(t).len() implies is_digit(
        #[trigger] without_sign(t)[j],
    ) by {
        assert(without_sign(t)[j] == s@[start + j]);
    }
    true
}

/// Whether `s[lo..hi]` is a decimal number with an optional exponent.
fn number_at(s: &Vec<char>, lo: usize, hi: usize) -> (r: bool)
    requires
        lo <= hi <= s@.len(),
    ensures
        r == is_number_text(s@.subrange(lo as int, hi as int)),
{
    let ghost t = s@.subrange(lo as int, hi as int);
    let mut k: usize = lo;
    while k < hi && !folds_to(s[k], 'e')
        invariant
            lo <= k <= hi <= s@.len(),
            forall|j: int| lo <= j < k ==> ascii_lower(#[trigger] s@[j]) != 'e',
        decreases hi - k,
    {
        k = k + 1;
    }
    if k == hi {
        let r = mantissa_at(s, lo, hi);
        assert forall|m: int| 0 <= m < t.len() implies ascii_lower(#[trigger] t[m]) != 'e' by {
            assert(t[m] == s@[lo + m]);
        }
        return r;
    }
    let m = mantissa_at(s, lo, k);
    let e = exponent_at(s, k + 1, hi);
    let ghost kk = (k - lo) as int;
    assert(t.take(kk) =~= s@.subrange(lo as int, k as int));
    assert(t.skip(kk + 1) =~= s@.subrange(k + 1, hi as int));
    assert(t[kk] == s@[k as int]);
    // The first `e` is a digit-free position, so a mantissa cannot reach past it.
    assert(!is_mantissa(t)) by {
        assert(!(is_digit(t[kk]) || t[kk] == '.'));
    }
    assert forall|k2: int|
        0 <= k2 < t.len() && ascii_lower(#[trigger] t[k2]) == 'e' && is_mantissa(t.take(k2))
            implies k2 == kk by {
        if k2 < kk {
            assert(t[k2] == s@[lo + k2]);
        } else if k2 > kk {
            assert(t.take(k2)[kk] == t[kk]);
            assert(!(is_digit(t.take(k2)[kk]) || t.take(k2)[kk] == '.'));
        }
    }
    m && e
}

/// Whether `s` is text that `str::parse::<f32>` accepts.
pub fn is_float_literal(s: &Vec<char>) -> (r: bool)
    ensures
        r == is_float_text(s@),
{
    let n = s.len();
    let lo: usize = if n > 0 && (s[0] == '+' || s[0] == '-') {
        1
    } else {
        0
    };
    assert(without_sign(s@) =~= s@.subrange(lo as int, n as int));
    let inf: [char; 3] = ['i', 'n', 'f'];
    let infinity: [char; 8] = ['i', 'n', 'f', 'i', 'n', 'i', 't', 'y'];
    let nan: [char; 3] = ['n', 'a', 'n'];
    assert(inf@ =~= seq!['i', 'n', 'f']);
    assert(infinity@ =~= seq!['i', 'n', 'f', 'i', 'n', 'i', 't', 'y']);
    assert(nan@ =~= seq!['n', 'a', 'n']);
    spells_at(s, lo, n, &inf) || spells_at(s, lo, n, &infinity) || spells_at(s, lo, n, &nan)
        || number_at(s, lo, n)
}

} // verus!
