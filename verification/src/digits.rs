//! Decimal numerals: rendering a counter as digits and reading digits back.

use vstd::prelude::*;

verus! {

/// The digit character for a value below ten.
pub open spec fn spec_digit(d: int) -> char {
    if d == 0 {
        '0'
    } else if d == 1 {
        '1'
    } else if d == 2 {
        '2'
    } else if d == 3 {
        '3'
    } else if d == 4 {
        '4'
    } else if d == 5 {
        '5'
    } else if d == 6 {
        '6'
    } else if d == 7 {
        '7'
    } else if d == 8 {
        '8'
    } else {
        '9'
    }
}

pub open spec fn is_digit(c: char) -> bool {
    48 <= c as u32 <= 57
}

/// Numeric value of a digit character (zero for anything else).
pub open spec fn digit_val(c: char) -> nat {
    if is_digit(c) {
        (c as u32 - 48) as nat
    } else {
        0
    }
}

/// The decimal numeral of `n`, most significant digit first, without
/// leading zeros.
pub open spec fn spec_dec(n: nat) -> Seq<char>
    decreases n,
{
    if n < 10 {
        seq![spec_digit(n as int)]
    } else {
        spec_dec(n / 10).push(spec_digit((n % 10) as int))
    }
}

/// The value of a digit string, read most significant digit first.
pub open spec fn spec_val(s: Seq<char>) -> nat
    decreases s.len(),
{
    if s.len() == 0 {
        0
    } else {
        spec_val(s.drop_last()) * 10 + digit_val(s.last())
    }
}

pub open spec fn all_digits(s: Seq<char>) -> bool {
    forall|i: int| 0 <= i < s.len() ==> is_digit(s[i])
}

/// Reading a numeral: defined exactly when the string is non-empty, all
/// digits, and its value fits in a `u32`.
pub open spec fn spec_parse_u32(s: Seq<char>) -> Option<u32> {
    if s.len() > 0 && all_digits(s) && spec_val(s) <= u32::MAX {
        Some(spec_val(s) as u32)
    } else {
        None
    }
}

/// Lenient variant used by the porcelain parser: anything unreadable
/// counts as zero.
pub open spec fn spec_parse_or_zero(s: Seq<char>) -> u32 {
    match spec_parse_u32(s) {
        Some(v) => v,
        None => 0,
    }
}

pub proof fn lemma_dec_shape(n: nat)
    ensures
        spec_dec(n).len() >= 1,
        all_digits(spec_dec(n)),
    decreases n,
{
    if n < 10 {
    } else {
        lemma_dec_shape(n / 10);
        assert forall|i: int| 0 <= i < spec_dec(n).len() implies is_digit(spec_dec(n)[i]) by {
            if i < spec_dec(n / 10).len() {
                assert(spec_dec(n)[i] == spec_dec(n / 10)[i]);
            }
        }
    }
}

/// Rendering then reading gives the value back.
pub proof fn lemma_val_of_dec(n: nat)
    ensures
        spec_val(spec_dec(n)) == n,
    decreases n,
{
    if n < 10 {
        assert(spec_dec(n).drop_last() =~= Seq::<char>::empty());
        assert(spec_val(Seq::<char>::empty()) == 0);
        assert(spec_dec(n).last() == spec_digit(n as int));
        assert(digit_val(spec_digit(n as int)) == n);
    } else {
        lemma_val_of_dec(n / 10);
        assert(spec_dec(n).drop_last() =~= spec_dec(n / 10));
        assert(spec_dec(n).last() == spec_digit((n % 10) as int));
        assert(digit_val(spec_digit((n % 10) as int)) == n % 10);
        assert(n == (n / 10) * 10 + n % 10) by {
            vstd::arithmetic::div_mod::lemma_fundamental_div_mod(n as int, 10);
        }
    }
}

/// The round trip through the numeral, stated over the parser.
pub proof fn lemma_parse_of_dec(n: u32)
    ensures
        spec_parse_u32(spec_dec(n as nat)) == Some(n),
{
    lemma_dec_shape(n as nat);
    lemma_val_of_dec(n as nat);
}

/// A prefix of a digit string never reads as more than the whole string.
pub proof fn lemma_val_prefix(s: Seq<char>, i: int)
    requires
        0 <= i <= s.len(),
    ensures
        spec_val(s.take(i)) <= spec_val(s),
    decreases s.len() - i,
{
    if i == s.len() {
        assert(s.take(i) =~= s);
    } else {
        assert(s.take(i + 1).drop_last() =~= s.take(i));
        assert(s.take(i + 1).last() == s[i]);
        lemma_val_prefix(s, i + 1);
    }
}

/// The digit character for a counter digit.
pub fn digit_of(d: u32) -> (c: char)
    requires
        d < 10,
    ensures
        c == spec_digit(d as int),
{
    if d == 0 {
        '0'
    } else if d == 1 {
        '1'
    } else if d == 2 {
        '2'
    } else if d == 3 {
        '3'
    } else if d == 4 {
        '4'
    } else if d == 5 {
        '5'
    } else if d == 6 {
        '6'
    } else if d == 7 {
        '7'
    } else if d == 8 {
        '8'
    } else {
        '9'
    }
}

/// Renders `n` in decimal.
pub fn u32_to_dec(n: u32) -> (r: Vec<char>)
    ensures
        r@ == spec_dec(n as nat),
    decreases n,
{
    if n < 10 {
        let c = digit_of(n);
        let mut v: Vec<char> = Vec::new();
        v.push(c);
        proof {
            assert(n % 10 == n);
            assert(v@ =~= spec_dec(n as nat));
        }
        v
    } else {
        let mut v = u32_to_dec(n / 10);
        let c = digit_of(n % 10);
        v.push(c);
        v
    }
}

/// Reads a decimal numeral; `None` when empty, non-digit, or too large.
pub fn parse_u32_chars(v: &Vec<char>) -> (r: Option<u32>)
    ensures
        r == spec_parse_u32(v@),
{
    if v.len() == 0 {
        return None;
    }
    let mut acc: u64 = 0;
    let mut i: usize = 0;
    while i < v.len()
        invariant
            0 < v@.len(),
            i <= v@.len(),
            forall|j: int| 0 <= j < i ==> is_digit(v@[j]),
            acc == spec_val(v@.take(i as int)),
            acc <= u32::MAX,
        decreases v@.len() - i,
    {
        let c = v[i];
        let cu = c as u32;
        if cu < 48 || cu > 57 {
            proof {
                assert(!is_digit(v@[i as int]));
            }
            return None;
        }
        let d = cu - 48;
        proof {
            lemma_take_step(v@, i as int);
        }
        let next: u64 = acc * 10 + d as u64;
        if next > u32::MAX as u64 {
            proof {
                lemma_val_prefix(v@, i + 1);
            }
            return None;
        }
        acc = next;
        i = i + 1;
    }
    proof {
        assert(v@.take(v@.len() as int) =~= v@);
    }
    Some(acc as u32)
}

/// One unfolding of `spec_val` along a growing prefix.
pub proof fn lemma_take_step(s: Seq<char>, i: int)
    requires
        0 <= i < s.len(),
    ensures
        spec_val(s.take(i + 1)) == spec_val(s.take(i)) * 10 + digit_val(s[i]),
{
    assert(s.take(i + 1).drop_last() =~= s.take(i));
    assert(s.take(i + 1).last() == s[i]);
}

/// Lenient exec reader matching `spec_parse_or_zero`.
pub fn parse_or_zero_chars(v: &Vec<char>) -> (r: u32)
    ensures
        r == spec_parse_or_zero(v@),
{
    match parse_u32_chars(v) {
        Some(n) => n,
        None => 0,
    }
}

} // verus!
