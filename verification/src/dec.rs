//! Decimal notation for machine integers: a spec-level description of the
//! digit string of a number, an emitter that produces it and a scanner that
//! reads it back, with the round-trip proved.

use vstd::prelude::*;

verus! {

/// The numeric value of a digit character, or 10 for any other character.
pub open spec fn digit_val(c: char) -> nat {
    if c == '0' { 0 } else if c == '1' { 1 } else if c == '2' { 2 }
    else if c == '3' { 3 } else if c == '4' { 4 } else if c == '5' { 5 }
    else if c == '6' { 6 } else if c == '7' { 7 } else if c == '8' { 8 }
    else if c == '9' { 9 } else { 10 }
}

/// The digit character of a value below ten.
pub open spec fn digit_char(d: nat) -> char {
    if d == 0 { '0' } else if d == 1 { '1' } else if d == 2 { '2' }
    else if d == 3 { '3' } else if d == 4 { '4' } else if d == 5 { '5' }
    else if d == 6 { '6' } else if d == 7 { '7' } else if d == 8 { '8' }
    else { '9' }
}

/// The decimal digit string of `n`, most significant digit first,
/// without leading zeros (except for `n == 0` itself).
pub open spec fn dec_rep(n: nat) -> Seq<char>
    decreases n,
{
    if n < 10 {
        seq![digit_char(n)]
    } else {
        dec_rep(n / 10) + seq![digit_char(n % 10)]
    }
}

/// Every character of `s` is a decimal digit.
pub open spec fn is_digits(s: Seq<char>) -> bool {
    forall|i: int| 0 <= i < s.len() ==> digit_val(#[trigger] s[i]) < 10
}

/// The value of a digit string, read most significant digit first.
pub open spec fn dval(s: Seq<char>) -> nat
    decreases s.len(),
{
    if s.len() == 0 {
        0
    } else {
        dval(s.take(s.len() - 1)) * 10 + digit_val(s.last())
    }
}

/// What scanning a whole digit string yields: its value, provided the
/// string is non-empty, all digits, and the value fits in a `usize`.
pub open spec fn parse_digits(s: Seq<char>) -> Option<usize> {
    if s.len() > 0 && is_digits(s) && dval(s) <= usize::MAX {
        Some(dval(s) as usize)
    } else {
        None
    }
}

/// The digit string of a number is a non-empty string of digits whose
/// value is the number again.
pub proof fn lemma_dec_rep(n: nat)
    ensures
        dec_rep(n).len() >= 1,
        is_digits(dec_rep(n)),
        dval(dec_rep(n)) == n,
    decreases n,
{
    if n < 10 {
        let s = dec_rep(n);
        assert(s.take(s.len() - 1) =~= Seq::<char>::empty());
        assert(dval(Seq::<char>::empty()) == 0);
        assert(s.last() == digit_char(n));
    } else {
        lemma_dec_rep(n / 10);
        let a = dec_rep(n / 10);
        let s = dec_rep(n);
        assert(s.take(s.len() - 1) =~= a);
        assert(forall|i: int| 0 <= i < s.len() ==> digit_val(#[trigger] s[i]) < 10) by {
            assert(forall|i: int| 0 <= i < a.len() ==> digit_val(#[trigger] a[i]) < 10);
            assert(s[s.len() - 1] == digit_char(n % 10));
        }
        assert(n / 10 * 10 + n % 10 == n) by {
            vstd::arithmetic::div_mod::lemma_fundamental_div_mod(n as int, 10);
        }
    }
}

/// Reading one more digit multiplies the value so far by ten and adds it.
pub proof fn lemma_dval_step(s: Seq<char>, i: int)
    requires
        0 <= i < s.len(),
    ensures
        dval(s.take(i + 1)) == dval(s.take(i)) * 10 + digit_val(s[i]),
{
    let t = s.take(i + 1);
    assert(t.take(t.len() - 1) =~= s.take(i));
    assert(t.last() == s[i]);
}

/// The value of a digit string is at least the value of any of its prefixes.
pub proof fn lemma_dval_mono(s: Seq<char>, i: int, j: int)
    requires
        0 <= i <= j <= s.len(),
    ensures
        dval(s.take(i)) <= dval(s.take(j)),
    decreases j - i,
{
    if i < j {
        lemma_dval_mono(s, i, j - 1);
        lemma_dval_step(s, j - 1);
    }
}

/// Appends the decimal digit string of `n` to `out`.
pub fn push_dec(n: usize, out: &mut Vec<char>)
    ensures
        final(out)@ == old(out)@ + dec_rep(n as nat),
    decreases n,
{
    if n < 10 {
        out.push(digit_of(n));
        assert(out@ =~= old(out)@ + dec_rep(n as nat));
    } else {
        assert(n / 10 < n) by {
            vstd::arithmetic::div_mod::lemma_div_is_ordered_by_denominator(n as int, 1, 10);
        }
        push_dec(n / 10, out);
        out.push(digit_of(n % 10));
        assert(out@ =~= old(out)@ + dec_rep(n as nat));
    }
}

/// The digit character of a value below ten, as executable code.
fn digit_of(d: usize) -> (c: char)
    requires
        d < 10,
    ensures
        c == digit_char(d as nat),
{
    if d == 0 { '0' } else if d == 1 { '1' } else if d == 2 { '2' }
    else if d == 3 { '3' } else if d == 4 { '4' } else if d == 5 { '5' }
    else if d == 6 { '6' } else if d == 7 { '7' } else if d == 8 { '8' }
    else { '9' }
}

/// The numeric value of a digit character, or 10 for any other character,
/// as executable code.
fn digit_value(c: char) -> (d: usize)
    ensures
        d == digit_val(c),
{
    if c == '0' { 0 } else if c == '1' { 1 } else if c == '2' { 2 }
    else if c == '3' { 3 } else if c == '4' { 4 } else if c == '5' { 5 }
    else if c == '6' { 6 } else if c == '7' { 7 } else if c == '8' { 8 }
    else if c == '9' { 9 } else { 10 }
}

/// Scans the characters of `s` from position `from` to the end as a
/// decimal number.
pub fn scan_digits(s: &Vec<char>, from: usize) -> (r: Option<usize>)
    requires
        from <= s@.len(),
    ensures
        r == parse_digits(s@.skip(from as int)),
{
    let ghost t = s@.skip(from as int);
    if from == s.len() {
        return None;
    }
    let mut acc: usize = 0;
    let mut i: usize = from;
    while i < s.len()
        invariant
            from <= i <= s@.len(),
            t == s@.skip(from as int),
            from < s@.len(),
            is_digits(t.take(i - from)),
            acc == dval(t.take(i - from)),
        decreases s@.len() - i,
    {
        let d = digit_value(s[i]);
        assert(t[i - from] == s@[i as int]);
        if d >= 10 {
            assert(!is_digits(t));
            return None;
        }
        proof {
            lemma_dval_step(t, i - from);
        }
        let shifted = match acc.checked_mul(10) {
            Some(v) => v,
            None => {
                proof {
                    lemma_dval_mono(t, i + 1 - from, t.len() as int);
                    assert(t.take(t.len() as int) =~= t);
                }
                return None;
            },
        };
        acc = match shifted.checked_add(d) {
            Some(v) => v,
            None => {
                proof {
                    lemma_dval_mono(t, i + 1 - from, t.len() as int);
                    assert(t.take(t.len() as int) =~= t);
                }
                return None;
            },
        };
        i = i + 1;
    }
    assert(t.take(i - from) =~= t);
    Some(acc)
}

} // verus!
