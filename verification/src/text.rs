//! Decimal text: rendering a `u64` as ASCII digits and reading it back.

use vstd::prelude::*;

verus! {

/// The digit character for a value below ten.
pub open spec fn digit_char(d: int) -> char {
    if d == 0 {
        '0'
    } else if d == 1 {
        '1'
    } else if d == 2 {
        '2'
    } else if d == 3 {
        '3'
    } else if d == 4 {
        '4'
    } else if d == 5 {
        '5'
    } else if d == 6 {
        '6'
    } else if d == 7 {
        '7'
    } else if d == 8 {
        '8'
    } else {
        '9'
    }
}

/// The numeric value of a digit character, or -1 for any other character.
pub open spec fn char_digit(c: char) -> int {
    if c == '0' {
        0
    } else if c == '1' {
        1
    } else if c == '2' {
        2
    } else if c == '3' {
        3
    } else if c == '4' {
        4
    } else if c == '5' {
        5
    } else if c == '6' {
        6
    } else if c == '7' {
        7
    } else if c == '8' {
        8
    } else if c == '9' {
        9
    } else {
        -1
    }
}

pub open spec fn is_digit(c: char) -> bool {
    char_digit(c) >= 0
}

/// The canonical decimal digits of `n`: no sign, no leading zeros
/// (a single `'0'` for zero).
pub open spec fn spec_dec_digits(n: int) -> Seq<char>
    recommends
        n >= 0,
    decreases n,
{
    if n < 10 {
        seq![digit_char(n)]
    } else {
        spec_dec_digits(n / 10).push(digit_char(n % 10))
    }
}

/// The value of a digit string read most-significant first.
pub open spec fn digits_value(s: Seq<char>) -> int
    decreases s.len(),
{
    if s.len() == 0 {
        0
    } else {
        digits_value(s.drop_last()) * 10 + char_digit(s.last())
    }
}

pub open spec fn all_digits(s: Seq<char>) -> bool {
    forall|i: int| 0 <= i < s.len() ==> is_digit(s[i])
}

/// The canonical digits of `n` are digit characters and evaluate back to `n`.
pub proof fn lemma_dec_digits_value(n: int)
    requires
        n >= 0,
    ensures
        spec_dec_digits(n).len() >= 1,
        all_digits(spec_dec_digits(n)),
        digits_value(spec_dec_digits(n)) == n,
    decreases n,
{
    if n < 10 {
        let s = spec_dec_digits(n);
        assert(s == seq![digit_char(n)]);
        assert(s.len() == 1);
        assert(s.drop_last() =~= Seq::<char>::empty());
        assert(digits_value(s.drop_last()) == 0);
        assert(s.last() == digit_char(n));
        assert(digits_value(s) == char_digit(digit_char(n)));
    } else {
        lemma_dec_digits_value(n / 10);
        let s = spec_dec_digits(n);
        assert(s == spec_dec_digits(n / 10).push(digit_char(n % 10)));
        assert(s.drop_last() =~= spec_dec_digits(n / 10));
        assert(s.last() == digit_char(n % 10));
        assert(char_digit(digit_char(n % 10)) == n % 10);
        assert(forall|i: int|
            0 <= i < s.len() ==> is_digit(
                #[trigger] s[i],
            )) by {
            assert(forall|i: int|
                0 <= i < s.len() - 1 ==> s[i] == spec_dec_digits(n / 10)[i]);
        }
    }
}

/// Reading one more digit multiplies the value so far by ten and adds it.
pub proof fn lemma_digits_value_snoc(s: Seq<char>, i: int, k: int)
    requires
        0 <= i <= k < s.len(),
    ensures
        digits_value(s.subrange(i, k + 1)) == digits_value(s.subrange(i, k)) * 10 + char_digit(
            s[k],
        ),
{
    let t = s.subrange(i, k + 1);
    assert(t.drop_last() =~= s.subrange(i, k));
    assert(t.last() == s[k]);
}

/// A string of digit characters has a non-negative value.
pub proof fn lemma_digits_value_nonneg(s: Seq<char>)
    requires
        all_digits(s),
    ensures
        digits_value(s) >= 0,
    decreases s.len(),
{
    if s.len() > 0 {
        assert(all_digits(s.drop_last())) by {
            assert(forall|i: int| 0 <= i < s.len() - 1 ==> s.drop_last()[i] == s[i]);
        }
        lemma_digits_value_nonneg(s.drop_last());
    }
}

/// Extending a digit run never decreases its value.
pub proof fn lemma_digits_value_mono(s: Seq<char>, i: int, j1: int, j2: int)
    requires
        0 <= i <= j1 <= j2 <= s.len(),
        forall|k: int| i <= k < j2 ==> is_digit(s[k]),
    ensures
        digits_value(s.subrange(i, j2)) >= digits_value(s.subrange(i, j1)),
    decreases j2 - j1,
{
    if j1 < j2 {
        lemma_digits_value_mono(s, i, j1, j2 - 1);
        lemma_digits_value_snoc(s, i, j2 - 1);
        assert(all_digits(s.subrange(i, j2 - 1))) by {
            assert(forall|k: int|
                0 <= k < j2 - 1 - i ==> is_digit(#[trigger] s.subrange(i, j2 - 1)[k]));
        }
        lemma_digits_value_nonneg(s.subrange(i, j2 - 1));
    }
}

/// Append one digit character to a string.
fn push_digit(s: &mut String, d: u64)
    requires
        d < 10,
    ensures
        final(s)@ == old(s)@ + seq![digit_char(d as int)],
{
    proof {
        reveal_strlit("0");
        reveal_strlit("1");
        reveal_strlit("2");
        reveal_strlit("3");
        reveal_strlit("4");
        reveal_strlit("5");
        reveal_strlit("6");
        reveal_strlit("7");
        reveal_strlit("8");
        reveal_strlit("9");
    }
    if d == 0 {
        s.append("0");
    } else if d == 1 {
        s.append("1");
    } else if d == 2 {
        s.append("2");
    } else if d == 3 {
        s.append("3");
    } else if d == 4 {
        s.append("4");
    } else if d == 5 {
        s.append("5");
    } else if d == 6 {
        s.append("6");
    } else if d == 7 {
        s.append("7");
    } else if d == 8 {
        s.append("8");
    } else {
        s.append("9");
    }
    proof {
        assert(s@ =~= old(s)@ + seq![digit_char(d as int)]);
    }
}

/// Append the canonical decimal digits of `n`.
pub fn push_dec_u64(s: &mut String, n: u64)
    ensures
        final(s)@ == old(s)@ + spec_dec_digits(n as int),
    decreases n,
{
    if n >= 10 {
        push_dec_u64(s, n / 10);
        push_digit(s, n % 10);
        proof {
            assert(s@ =~= old(s)@ + spec_dec_digits(n as int));
        }
    } else {
        push_digit(s, n);
    }
}

/// The canonical decimal digits of a value below one hundred, left-padded
/// with `'0'` to exactly two characters.
pub open spec fn spec_two_dec_digits(n: int) -> Seq<char>
    recommends
        0 <= n < 100,
{
    seq![digit_char(n / 10), digit_char(n % 10)]
}

/// Append exactly two digits for a value below one hundred.
pub fn push_two_dec_u64(s: &mut String, n: u64)
    requires
        n < 100,
    ensures
        final(s)@ == old(s)@ + spec_two_dec_digits(n as int),
{
    push_digit(s, n / 10);
    push_digit(s, n % 10);
    proof {
        assert(s@ =~= old(s)@ + spec_two_dec_digits(n as int));
    }
}

} // verus!
