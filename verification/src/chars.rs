//! Character-sequence utilities shared by the parsers, the renderers and the
//! snapshot codec.  Strings are processed as vectors of `char`, whose view is
//! the same `Seq<char>` as the view of the originating `str`.

use vstd::prelude::*;

verus! {

/// Relies on `String::push`: appends the given character to the end of the
/// string.
#[verifier::external_body]
pub fn push_char(s: &mut String, c: char)
    ensures
        final(s)@ == old(s)@.push(c),
{
    s.push(c);
}

/// The characters of a string slice, in order.
pub fn to_chars(s: &str) -> (r: Vec<char>)
    ensures
        r@ == s@,
{
    let n = s.unicode_len();
    let mut v: Vec<char> = Vec::new();
    let mut i: usize = 0;
    while i < n
        invariant
            i <= n,
            n == s@.len(),
            v@ == s@.subrange(0, i as int),
        decreases n - i,
    {
        v.push(s.get_char(i));
        i = i + 1;
        proof {
            assert(v@ =~= s@.subrange(0, i as int));
        }
    }
    proof {
        assert(v@ =~= s@);
    }
    v
}

/// A `String` holding exactly the given characters.
pub fn chars_to_string(v: &Vec<char>) -> (r: String)
    ensures
        r@ == v@,
{
    let mut s = String::new();
    let mut i: usize = 0;
    while i < v.len()
        invariant
            i <= v.len(),
            s@ == v@.subrange(0, i as int),
        decreases v.len() - i,
    {
        push_char(&mut s, v[i]);
        i = i + 1;
        proof {
            assert(s@ =~= v@.subrange(0, i as int));
        }
    }
    proof {
        assert(s@ =~= v@);
    }
    s
}

/// Appends all of `src` to `dst`.
pub fn append_vec(dst: &mut Vec<char>, src: &Vec<char>)
    ensures
        final(dst)@ == old(dst)@ + src@,
{
    dst.extend_from_slice(src.as_slice());
}

/// Appends the characters of `s` to `dst`.
pub fn append_str(dst: &mut Vec<char>, s: &str)
    ensures
        final(dst)@ == old(dst)@ + s@,
{
    let n = s.unicode_len();
    let mut i: usize = 0;
    while i < n
        invariant
            i <= n,
            n == s@.len(),
            dst@ == old(dst)@ + s@.subrange(0, i as int),
        decreases n - i,
    {
        dst.push(s.get_char(i));
        i = i + 1;
        proof {
            assert(dst@ =~= old(dst)@ + s@.subrange(0, i as int));
        }
    }
    proof {
        assert(dst@ =~= old(dst)@ + s@);
    }
}

/// The characters of `v` from `start` (inclusive) to the end.
pub fn tail_from(v: &Vec<char>, start: usize) -> (r: Vec<char>)
    requires
        start <= v@.len(),
    ensures
        r@ == v@.subrange(start as int, v@.len() as int),
{
    copy_range(v, start, v.len())
}

/// The characters of `v` from `start` (inclusive) to `end` (exclusive).
pub fn copy_range(v: &Vec<char>, start: usize, end: usize) -> (r: Vec<char>)
    requires
        start <= end <= v@.len(),
    ensures
        r@ == v@.subrange(start as int, end as int),
{
    let mut r: Vec<char> = Vec::new();
    let mut i: usize = start;
    while i < end
        invariant
            start <= i <= end <= v@.len(),
            r@ == v@.subrange(start as int, i as int),
        decreases end - i,
    {
        r.push(v[i]);
        i = i + 1;
        proof {
            assert(r@ =~= v@.subrange(start as int, i as int));
        }
    }
    r
}

/// Whether the characters of `v` in `[start, end)` are exactly those of `lit`.
pub fn seg_eq(v: &Vec<char>, start: usize, end: usize, lit: &str) -> (r: bool)
    requires
        start <= end <= v@.len(),
    ensures
        r == (v@.subrange(start as int, end as int) == lit@),
{
    let n = lit.unicode_len();
    if n != end - start {
        proof {
            assert(v@.subrange(start as int, end as int).len() != lit@.len());
        }
        return false;
    }
    let mut i: usize = 0;
    while i < n
        invariant
            i <= n,
            n == lit@.len(),
            start + n == end,
            end <= v@.len(),
            forall|j: int| 0 <= j < i ==> v@[start + j] == lit@[j],
        decreases n - i,
    {
        if v[start + i] != lit.get_char(i) {
            proof {
                assert(v@.subrange(start as int, end as int)[i as int] != lit@[i as int]);
            }
            return false;
        }
        i = i + 1;
    }
    proof {
        assert(v@.subrange(start as int, end as int) =~= lit@);
    }
    true
}

/// Whether `v` holds exactly the characters of `lit`.
pub fn vec_eq_str(v: &Vec<char>, lit: &str) -> (r: bool)
    ensures
        r == (v@ == lit@),
{
    let r = seg_eq(v, 0, v.len(), lit);
    proof {
        assert(v@.subrange(0, v@.len() as int) =~= v@);
    }
    r
}

/// Whether `v` starts with the characters of `lit`.
pub fn has_prefix(v: &Vec<char>, lit: &str) -> (r: bool)
    ensures
        r == lit@.is_prefix_of(v@),
{
    let n = lit.unicode_len();
    if n > v.len() {
        return false;
    }
    let r = seg_eq(v, 0, n, lit);
    proof {
        assert(v@.subrange(0, n as int) == v@.take(n as int));
    }
    r
}

/// Index of the first occurrence of `c` in `s`, or `s.len()` when `c` does
/// not occur.
pub open spec fn first_idx(s: Seq<char>, c: char) -> nat
    decreases s.len(),
{
    if s.len() == 0 {
        0
    } else if s[0] == c {
        0
    } else {
        1 + first_idx(s.drop_first(), c)
    }
}

pub proof fn lemma_first_idx(s: Seq<char>, c: char)
    ensures
        first_idx(s, c) <= s.len(),
        first_idx(s, c) < s.len() ==> s[first_idx(s, c) as int] == c,
        forall|j: int| 0 <= j < first_idx(s, c) ==> s[j] != c,
    decreases s.len(),
{
    if s.len() == 0 {
    } else if s[0] == c {
    } else {
        lemma_first_idx(s.drop_first(), c);
        assert forall|j: int| 0 <= j < first_idx(s, c) implies s[j] != c by {
            if j >= 1 {
                assert(s.drop_first()[j - 1] == s[j]);
            }
        }
    }
}

/// `i` is the first occurrence of `c` (or the length, when absent) exactly
/// when no earlier position holds `c` and position `i`, if inside, does.
pub proof fn lemma_first_idx_is(s: Seq<char>, c: char, i: int)
    requires
        0 <= i <= s.len(),
        i < s.len() ==> s[i] == c,
        forall|j: int| 0 <= j < i ==> s[j] != c,
    ensures
        first_idx(s, c) == i,
    decreases s.len(),
{
    if s.len() == 0 {
    } else if i == 0 {
    } else {
        assert(s[0] != c);
        assert forall|j: int| 0 <= j < i - 1 implies s.drop_first()[j] != c by {
            assert(s.drop_first()[j] == s[j + 1]);
        }
        assert(i - 1 < s.drop_first().len() ==> s.drop_first()[i - 1] == c) by {
            if i < s.len() {
                assert(s.drop_first()[i - 1] == s[i]);
            }
        }
        lemma_first_idx_is(s.drop_first(), c, i - 1);
    }
}

/// Exec search for the first occurrence of `c` at or after `start`.
pub fn find_from(v: &Vec<char>, start: usize, c: char) -> (r: usize)
    requires
        start <= v@.len(),
    ensures
        start <= r <= v@.len(),
        r < v@.len() ==> v@[r as int] == c,
        forall|j: int| start <= j < r ==> v@[j] != c,
        r - start == first_idx(v@.subrange(start as int, v@.len() as int), c),
{
    let mut i: usize = start;
    while i < v.len()
        invariant
            start <= i <= v@.len(),
            forall|j: int| start <= j < i ==> v@[j] != c,
        decreases v@.len() - i,
    {
        if v[i] == c {
            proof {
                let sub = v@.subrange(start as int, v@.len() as int);
                assert forall|j: int| 0 <= j < i - start implies sub[j] != c by {
                    assert(sub[j] == v@[start + j]);
                }
                lemma_first_idx_is(sub, c, i - start);
            }
            return i;
        }
        i = i + 1;
    }
    proof {
        let sub = v@.subrange(start as int, v@.len() as int);
        assert forall|j: int| 0 <= j < v@.len() - start implies sub[j] != c by {
            assert(sub[j] == v@[start + j]);
        }
        lemma_first_idx_is(sub, c, v@.len() - start);
    }
    v.len()
}

pub open spec fn is_ascii_ws(c: char) -> bool {
    c == ' ' || c == '\t' || c == '\n' || c == '\r' || c == '\u{c}'
}

/// Leading whitespace removed.
pub open spec fn spec_trim_start(s: Seq<char>) -> Seq<char>
    decreases s.len(),
{
    if s.len() > 0 && is_ascii_ws(s[0]) {
        spec_trim_start(s.drop_first())
    } else {
        s
    }
}

/// Trailing whitespace removed.
pub open spec fn spec_trim_end(s: Seq<char>) -> Seq<char>
    decreases s.len(),
{
    if s.len() > 0 && is_ascii_ws(s.last()) {
        spec_trim_end(s.drop_last())
    } else {
        s
    }
}

/// Whitespace removed from both ends.
pub open spec fn spec_trim(s: Seq<char>) -> Seq<char> {
    spec_trim_end(spec_trim_start(s))
}

fn is_ws(c: char) -> (r: bool)
    ensures
        r == is_ascii_ws(c),
{
    c == ' ' || c == '\t' || c == '\n' || c == '\r' || c == '\u{c}'
}

/// Exec trim over a character vector.
pub fn trim_chars(v: &Vec<char>) -> (r: Vec<char>)
    ensures
        r@ == spec_trim(v@),
{
    let mut start: usize = 0;
    proof {
        assert(v@.subrange(0, v@.len() as int) =~= v@);
    }
    while start < v.len() && is_ws(v[start])
        invariant
            start <= v@.len(),
            spec_trim_start(v@) == spec_trim_start(v@.subrange(start as int, v@.len() as int)),
        decreases v@.len() - start,
    {
        proof {
            let before = v@.subrange(start as int, v@.len() as int);
            assert(before[0] == v@[start as int]);
            assert(before.drop_first() =~= v@.subrange(start + 1, v@.len() as int));
        }
        start = start + 1;
    }
    proof {
        let tail = v@.subrange(start as int, v@.len() as int);
        assert(spec_trim_start(v@) == tail);
    }
    let mut end: usize = v.len();
    while end > start && is_ws(v[end - 1])
        invariant
            start <= end <= v@.len(),
            spec_trim_start(v@) == v@.subrange(start as int, v@.len() as int),
            spec_trim_end(v@.subrange(start as int, v@.len() as int)) == spec_trim_end(
                v@.subrange(start as int, end as int),
            ),
        decreases end,
    {
        proof {
            let before = v@.subrange(start as int, end as int);
            assert(before.last() == v@[end - 1]);
            assert(before.drop_last() =~= v@.subrange(start as int, end - 1));
        }
        end = end - 1;
    }
    proof {
        let piece = v@.subrange(start as int, end as int);
        assert(spec_trim(v@) == piece);
    }
    copy_range(v, start, end)
}

/// Splitting on a separator character.  The result always has one more
/// piece than there are separators; in particular it is never empty.
pub open spec fn split_char(s: Seq<char>, c: char) -> Seq<Seq<char>>
    decreases s.len(),
{
    if s.len() == 0 {
        seq![Seq::<char>::empty()]
    } else if s[0] == c {
        seq![Seq::<char>::empty()] + split_char(s.drop_first(), c)
    } else {
        let r = split_char(s.drop_first(), c);
        seq![seq![s[0]] + r[0]] + r.drop_first()
    }
}

pub proof fn lemma_split_char_len(s: Seq<char>, c: char)
    ensures
        split_char(s, c).len() >= 1,
    decreases s.len(),
{
    if s.len() == 0 {
    } else {
        lemma_split_char_len(s.drop_first(), c);
    }
}

/// A separator-free string splits into just itself.
pub proof fn lemma_split_char_whole(s: Seq<char>, c: char)
    requires
        !s.contains(c),
    ensures
        split_char(s, c) =~= seq![s],
    decreases s.len(),
{
    if s.len() == 0 {
        assert(s =~= Seq::<char>::empty());
        assert(split_char(s, c) =~= seq![s]);
    } else {
        assert(s[0] != c);
        assert(!s.drop_first().contains(c)) by {
            if s.drop_first().contains(c) {
                let j = choose|j: int| 0 <= j < s.drop_first().len() && s.drop_first()[j] == c;
                assert(s[j + 1] == c);
            }
        }
        lemma_split_char_whole(s.drop_first(), c);
        let r = split_char(s.drop_first(), c);
        assert(r[0] == s.drop_first());
        assert(r.drop_first() =~= Seq::<Seq<char>>::empty());
        assert(seq![s[0]] + s.drop_first() =~= s);
        assert(split_char(s, c) =~= seq![s]);
    }
}

/// Splitting a separator-free piece, the separator, then a remainder gives
/// the piece followed by the split of the remainder.
pub proof fn lemma_split_char_concat(a: Seq<char>, b: Seq<char>, c: char)
    requires
        !a.contains(c),
    ensures
        split_char(a + seq![c] + b, c) =~= seq![a] + split_char(b, c),
    decreases a.len(),
{
    let s = a + seq![c] + b;
    if a.len() == 0 {
        assert(s[0] == c);
        assert(s.drop_first() =~= b);
        assert(a =~= Seq::<char>::empty());
        assert(split_char(s, c) =~= seq![a] + split_char(b, c));
    } else {
        assert(s[0] == a[0]);
        assert(a[0] != c);
        assert(!a.drop_first().contains(c)) by {
            if a.drop_first().contains(c) {
                let j = choose|j: int| 0 <= j < a.drop_first().len() && a.drop_first()[j] == c;
                assert(a[j + 1] == c);
            }
        }
        assert(s.drop_first() =~= a.drop_first() + seq![c] + b);
        lemma_split_char_concat(a.drop_first(), b, c);
        let r = split_char(s.drop_first(), c);
        lemma_split_char_len(b, c);
        assert(r =~= seq![a.drop_first()] + split_char(b, c));
        assert(r[0] == a.drop_first());
        assert(seq![s[0]] + r[0] =~= a);
        assert(r.drop_first() =~= split_char(b, c));
        assert(split_char(s, c) =~= seq![a] + split_char(b, c));
    }
}

/// Exec splitting; pieces are returned in order.
pub fn split_vec(v: &Vec<char>, c: char) -> (parts: Vec<Vec<char>>)
    ensures
        parts@.map_values(|p: Vec<char>| p@) == split_char(v@, c),
        parts@.len() >= 1,
{
    let ghost whole = v@;
    let mut cur: Vec<char> = Vec::new();
    let mut rest: Vec<Vec<char>> = Vec::new();
    let mut i: usize = v.len();
    while i > 0
        invariant
            i <= v@.len(),
            seq![cur@] + rest@.map_values(|p: Vec<char>| p@) == split_char(
                v@.subrange(i as int, v@.len() as int),
                c,
            ),
        decreases i,
    {
        let ghost before = v@.subrange(i - 1, v@.len() as int);
        let ghost after = v@.subrange(i as int, v@.len() as int);
        proof {
            assert(before.drop_first() =~= after);
            assert(before[0] == v@[i - 1]);
        }
        if v[i - 1] == c {
            rest.insert(0, cur);
            cur = Vec::new();
            proof {
                assert(seq![cur@] + rest@.map_values(|p: Vec<char>| p@) =~= split_char(before, c));
            }
        } else {
            let ghost old_cur = cur@;
            cur.insert(0, v[i - 1]);
            proof {
                lemma_split_char_len(after, c);
                assert(split_char(after, c)[0] == old_cur);
                assert(cur@ =~= seq![before[0]] + old_cur);
                assert(rest@.map_values(|p: Vec<char>| p@) =~= split_char(after, c).drop_first());
                assert(seq![cur@] + rest@.map_values(|p: Vec<char>| p@) =~= split_char(before, c));
            }
        }
        i = i - 1;
    }
    rest.insert(0, cur);
    proof {
        assert(v@.subrange(0, v@.len() as int) =~= v@);
        assert(rest@.map_values(|p: Vec<char>| p@) =~= split_char(v@, c));
        lemma_split_char_len(v@, c);
    }
    rest
}

} // verus!
