//! The grammar of decimal floating-point literals.
//!
//! A literal is `Sign? ( 'inf' | 'infinity' | 'nan' | Number )`, where the words
//! are read without regard to ASCII case and
//! `Number ::= ( Digit+ | Digit+ '.' Digit* | Digit* '.' Digit+ ) Exp?`,
//! `Exp ::= ('e' | 'E') Sign? Digit+`. This is the text that Rust's `f64`
//! parsing accepts.

use vstd::prelude::*;

verus! {

pub open spec fn is_digit(c: char) -> bool {
    '0' <= c && c <= '9'
}

/// `s` without one leading `+` or `-`.
pub open spec fn strip_sign(s: Seq<char>) -> Seq<char> {
    if s.len() > 0 && (s[0] == '+' || s[0] == '-') {
        s.drop_first()
    } else {
        s
    }
}

/// `a` is the lowercase ASCII letter `l` in either case.
pub open spec fn same_letter(a: char, l: char) -> bool {
    a == l || (a as u32) + 32 == (l as u32)
}

/// `t` spells the lowercase ASCII word `w` in any mix of cases.
pub open spec fn spells(t: Seq<char>, w: Seq<char>) -> bool {
    t.len() == w.len() && forall|k: int| 0 <= k < t.len() ==> same_letter(#[trigger] t[k], w[k])
}

pub open spec fn special_word(t: Seq<char>) -> bool {
    spells(t, seq!['i', 'n', 'f']) || spells(t, seq!['i', 'n', 'f', 'i', 'n', 'i', 't', 'y'])
        || spells(t, seq!['n', 'a', 'n'])
}

pub open spec fn all_digits(t: Seq<char>) -> bool {
    forall|k: int| 0 <= k < t.len() ==> is_digit(#[trigger] t[k])
}

/// Digits with at most one `.` among them, and at least one digit.
pub open spec fn mantissa(m: Seq<char>) -> bool {
    &&& forall|k: int| 0 <= k < m.len() ==> is_digit(#[trigger] m[k]) || m[k] == '.'
    &&& forall|i: int, j: int| 0 <= i < j < m.len() && #[trigger] m[i] == '.' ==> #[trigger] m[j] != '.'
    &&& exists|k: int| 0 <= k < m.len() && is_digit(#[trigger] m[k])
}

/// An optional sign, then one or more digits.
pub open spec fn exponent(e: Seq<char>) -> bool {
    strip_sign(e).len() > 0 && all_digits(strip_sign(e))
}

/// Index of the first `e` or `E` in `t`, or its length if there is none.
pub open spec fn exp_mark(t: Seq<char>) -> int
    decreases t.len(),
{
    if t.len() == 0 {
        0
    } else if t[0] == 'e' || t[0] == 'E' {
        0
    } else {
        1 + exp_mark(t.drop_first())
    }
}

pub open spec fn decimal(t: Seq<char>) -> bool {
    let k = exp_mark(t);
    mantissa(t.take(k)) && (k == t.len() || exponent(t.skip(k + 1)))
}

/// `s` is a floating-point literal.
pub open spec fn float_literal(s: Seq<char>) -> bool {
    special_word(strip_sign(s)) || decimal(strip_sign(s))
}

proof fn lemma_exp_mark(t: Seq<char>)
    ensures
        0 <= exp_mark(t) <= t.len(),
        forall|k: int| 0 <= k < exp_mark(t) ==> #[trigger] t[k] != 'e' && t[k] != 'E',
        exp_mark(t) < t.len() ==> t[exp_mark(t)] == 'e' || t[exp_mark(t)] == 'E',
    decreases t.len(),
{
    if t.len() > 0 && !(t[0] == 'e' || t[0] == 'E') {
        lemma_exp_mark(t.drop_first());
        assert forall|k: int| 0 <= k < exp_mark(t) implies #[trigger] t[k] != 'e' && t[k] != 'E' by {
            if k > 0 {
                assert(t[k] == t.drop_first()[k - 1]);
            }
        }
    }
}

fn letter_matches(a: char, l: char) -> (r: bool)
    ensures
        r == same_letter(a, l),
{
    a == l || (a as u32) + 32 == (l as u32)
}

/// Whether `t[from..]` spells the lowercase word `w`.
fn spells_at(t: &Vec<char>, from: usize, w: &[char]) -> (r: bool)
    requires
        from <= t@.len(),
    ensures
        r == spells(t@.skip(from as int), w@),
{
    if t.len() - from != w.len() {
        return false;
    }
    let mut k: usize = 0;
    while k < w.len()
        invariant
            from <= t@.len() <= usize::MAX,
            t@.len() - from == w@.len(),
            0 <= k <= w@.len(),
            forall|i: int| 0 <= i < k ==> same_letter(#[trigger] t@.skip(from as int)[i], w@[i]),
        decreases w@.len() - k,
    {
        assert(from + k < t@.len());
        if !letter_matches(t[from + k], w[k]) {
            assert(!same_letter(t@.skip(from as int)[k as int], w@[k as int]));
            return false;
        }
        k = k + 1;
    }
    true
}

/// Whether `t[from..to]` is a mantissa.
fn is_mantissa(t: &Vec<char>, from: usize, to: usize) -> (r: bool)
    requires
        from <= to <= t@.len(),
    ensures
        r == mantissa(t@.subrange(from as int, to as int)),
{
    let ghost m = t@.subrange(from as int, to as int);
    let mut k: usize = from;
    let mut dots: usize = 0;
    let mut digits: bool = false;
    let ghost mut dot_at: int = 0;
    let ghost mut digit_at: int = 0;
    while k < to
        invariant
            from <= k <= to <= t@.len(),
            m == t@.subrange(from as int, to as int),
            dots <= 1,
            forall|i: int| 0 <= i < k - from ==> is_digit(#[trigger] m[i]) || m[i] == '.',
            dots == 0 ==> forall|i: int| 0 <= i < k - from ==> #[trigger] m[i] != '.',
            dots == 1 ==> 0 <= dot_at < k - from && m[dot_at] == '.'
                && forall|i: int| 0 <= i < k - from && i != dot_at ==> #[trigger] m[i] != '.',
            digits ==> 0 <= digit_at < k - from && is_digit(m[digit_at]),
            !digits ==> forall|i: int| 0 <= i < k - from ==> !is_digit(#[trigger] m[i]),
        decreases to - k,
    {
        let c = t[k];
        assert(c == m[k - from]);
        if c == '.' {
            if dots == 1 {
                assert(m[dot_at] == '.' && m[k - from] == '.');
                assert(!mantissa(m));
                return false;
            }
            dots = 1;
            proof {
                dot_at = k - from;
            }
        } else if '0' <= c && c <= '9' {
            proof {
                if !digits {
                    digit_at = k - from;
                }
            }
            digits = true;
        } else {
            assert(!mantissa(m));
            return false;
        }
        k = k + 1;
    }
    if !digits {
        assert(!mantissa(m));
    }
    digits
}

/// Whether `t[from..]` is a sign and digits.
fn is_exponent(t: &Vec<char>, from: usize) -> (r: bool)
    requires
        from <= t@.len(),
    ensures
        r == exponent(t@.skip(from as int)),
{
    let ghost e = t@.skip(from as int);
    let mut k: usize = from;
    if k < t.len() && (t[k] == '+' || t[k] == '-') {
        k = k + 1;
    }
    let ghost d = strip_sign(e);
    assert(d =~= t@.skip(k as int));
    if k == t.len() {
        return false;
    }
    let start = k;
    while k < t.len()
        invariant
            start <= k <= t@.len(),
            d == t@.skip(start as int),
            d == strip_sign(t@.skip(from as int)),
            forall|i: int| 0 <= i < k - start ==> is_digit(#[trigger] d[i]),
        decreases t@.len() - k,
    {
        let c = t[k];
        assert(c == d[k - start]);
        if !('0' <= c && c <= '9') {
            assert(!is_digit(d[k - start]));
            return false;
        }
        k = k + 1;
    }
    true
}

/// Whether `s` is a floating-point literal.
pub fn is_float_literal(s: &Vec<char>) -> (r: bool)
    ensures
        r == float_literal(s@),
{
    let mut from: usize = 0;
    if s.len() > 0 && (s[0] == '+' || s[0] == '-') {
        from = 1;
    }
    let ghost t = strip_sign(s@);
    assert(t =~= s@.skip(from as int));
    if spells_at(s, from, &['i', 'n', 'f']) || spells_at(s, from, &['i', 'n', 'f', 'i', 'n', 'i', 't', 'y'])
        || spells_at(s, from, &['n', 'a', 'n']) {
        return true;
    }
    let mut k: usize = from;
    while k < s.len() && s[k] != 'e' && s[k] != 'E'
        invariant
            from <= k <= s@.len(),
            t == s@.skip(from as int),
            forall|i: int| 0 <= i < k - from ==> #[trigger] t[i] != 'e' && t[i] != 'E',
        decreases s@.len() - k,
    {
        k = k + 1;
    }
    proof {
        lemma_exp_mark(t);
        let m = exp_mark(t);
        if m < k - from {
            assert(t[m] != 'e' && t[m] != 'E');
        }
        if m > k - from {
            assert(t[k - from] != 'e' && t[k - from] != 'E');
        }
        assert(m == k - from);
        assert(t.take(m) =~= s@.subrange(from as int, k as int));
        if k < s.len() {
            assert(t.skip(m + 1) =~= s@.skip(k + 1));
        }
    }
    if !is_mantissa(s, from, k) {
        return false;
    }
    k == s.len() || is_exponent(s, k + 1)
}

} // verus!
