//! Word splitting and decimal counters on kernel text lines.

use vstd::prelude::*;
use vstd::string::*;

verus! {

/// The characters that separate words on a counter line: ASCII whitespace
/// only; other Unicode spaces are part of a word.
pub open spec fn is_space(c: char) -> bool {
    c == ' ' || c == '\t' || c == '\n' || c == '\r' || c == '\u{0b}' || c == '\u{0c}'
}

/// The characters of each line.
pub open spec fn lines_view(ls: Seq<String>) -> Seq<Seq<char>> {
    ls.map_values(|l: String| l@)
}

/// The words of `s[i..]`, given that `cur` is the word read so far.
pub open spec fn words_from(s: Seq<char>, i: int, cur: Seq<char>) -> Seq<Seq<char>>
    decreases s.len() - i,
{
    if i >= s.len() {
        if cur.len() > 0 {
            seq![cur]
        } else {
            Seq::empty()
        }
    } else if is_space(s[i]) {
        if cur.len() > 0 {
            seq![cur] + words_from(s, i + 1, Seq::empty())
        } else {
            words_from(s, i + 1, Seq::empty())
        }
    } else {
        words_from(s, i + 1, cur.push(s[i]))
    }
}

/// The maximal runs of non-space characters of `s`, in order.
pub open spec fn words(s: Seq<char>) -> Seq<Seq<char>> {
    words_from(s, 0, Seq::empty())
}

pub open spec fn is_digit(c: char) -> bool {
    '0' <= c && c <= '9'
}

/// The value of a string of decimal digits.
pub open spec fn numeral_value(t: Seq<char>) -> int
    decreases t.len(),
{
    if t.len() == 0 {
        0
    } else {
        numeral_value(t.drop_last()) * 10 + (t.last() as int - '0' as int)
    }
}

pub open spec fn is_numeral(t: Seq<char>) -> bool {
    t.len() > 0 && forall|i: int| 0 <= i < t.len() ==> is_digit(#[trigger] t[i])
}

/// A word that reads as a tick or kibibyte counter: decimal digits only,
/// with a value that fits in 64 bits.
pub open spec fn is_counter(t: Seq<char>) -> bool {
    is_numeral(t) && numeral_value(t) <= u64::MAX
}

fn is_space_char(c: char) -> (r: bool)
    ensures
        r == is_space(c),
{
    c == ' ' || c == '\t' || c == '\n' || c == '\r' || c == '\u{0b}' || c == '\u{0c}'
}

pub open spec fn spans_view(s: Seq<char>, spans: Seq<(usize, usize)>) -> Seq<Seq<char>> {
    Seq::new(spans.len(), |k: int| s.subrange(spans[k].0 as int, spans[k].1 as int))
}

/// The positions of the words of `s`: `s[a..b]` for each `(a, b)`.
pub fn word_spans(s: &str) -> (r: Vec<(usize, usize)>)
    ensures
        spans_view(s@, r@) == words(s@),
        forall|k: int| 0 <= k < r.len() ==> r[k].0 <= r[k].1 && r[k].1 <= s@.len(),
{
    let n = s.unicode_len();
    let mut r: Vec<(usize, usize)> = Vec::new();
    let mut start: usize = 0;
    let mut i: usize = 0;
    assert(s@.subrange(0, 0) =~= Seq::<char>::empty());
    assert(spans_view(s@, r@) + words(s@) =~= words(s@));
    while i < n
        invariant
            n == s@.len(),
            start <= i <= n,
            forall|k: int| 0 <= k < r.len() ==> r[k].0 <= r[k].1 && r[k].1 <= s@.len(),
            words(s@) == spans_view(s@, r@) + words_from(s@, i as int, s@.subrange(
                start as int,
                i as int,
            )),
        decreases n - i,
    {
        let c = s.get_char(i);
        let ghost cur = s@.subrange(start as int, i as int);
        let ghost old_view = spans_view(s@, r@);
        if is_space_char(c) {
            if start < i {
                r.push((start, i));
                assert(spans_view(s@, r@) =~= old_view.push(cur));
                assert(old_view + (seq![cur] + words_from(s@, i + 1, Seq::empty())) =~= old_view.push(
                    cur,
                ) + words_from(s@, i + 1, Seq::empty()));
            }
            start = i + 1;
            assert(s@.subrange(start as int, start as int) =~= Seq::<char>::empty());
        } else {
            assert(s@.subrange(start as int, i + 1) =~= cur.push(c));
        }
        i = i + 1;
    }
    let ghost cur = s@.subrange(start as int, i as int);
    let ghost old_view = spans_view(s@, r@);
    if start < n {
        r.push((start, n));
        assert(spans_view(s@, r@) =~= old_view.push(cur));
        assert(old_view + seq![cur] =~= old_view.push(cur));
    } else {
        assert(old_view + Seq::<Seq<char>>::empty() =~= old_view);
    }
    r
}

proof fn lemma_prefix_value(t: Seq<char>, k: int)
    requires
        0 <= k <= t.len(),
        forall|i: int| 0 <= i < t.len() ==> is_digit(#[trigger] t[i]),
    ensures
        0 <= numeral_value(t.subrange(0, k)) <= numeral_value(t),
    decreases t.len(),
{
    if t.len() > 0 {
        let u = t.drop_last();
        assert forall|i: int| 0 <= i < u.len() implies is_digit(#[trigger] u[i]) by {
            assert(u[i] == t[i]);
        }
        if k == t.len() {
            assert(t.subrange(0, k) =~= t);
            lemma_prefix_value(u, u.len() as int);
            assert(u.subrange(0, u.len() as int) =~= u);
        } else {
            lemma_prefix_value(u, k);
            assert(u.subrange(0, k) =~= t.subrange(0, k));
            lemma_prefix_value(u, u.len() as int);
            assert(u.subrange(0, u.len() as int) =~= u);
            assert(is_digit(t[t.len() - 1]));
        }
    }
}

/// Reads `s[a..b]` as a counter.
pub fn parse_counter(s: &str, a: usize, b: usize) -> (r: Option<u64>)
    requires
        a <= b <= s@.len(),
    ensures
        r is Some <==> is_counter(s@.subrange(a as int, b as int)),
        r is Some ==> r->0 == numeral_value(s@.subrange(a as int, b as int)),
{
    let ghost t = s@.subrange(a as int, b as int);
    if a == b {
        return None;
    }
    let mut acc: u64 = 0;
    let mut j: usize = a;
    while j < b
        invariant
            a <= j <= b <= s@.len(),
            t == s@.subrange(a as int, b as int),
            forall|i: int| a <= i < j ==> is_digit(#[trigger] s@[i]),
            acc == numeral_value(s@.subrange(a as int, j as int)),
        decreases b - j,
    {
        let c = s.get_char(j);
        assert(s@.subrange(a as int, j + 1).drop_last() =~= s@.subrange(a as int, j as int));
        if !('0' <= c && c <= '9') {
            assert(t[j - a] == c);
            return None;
        }
        let next: u128 = acc as u128 * 10 + (c as u128 - '0' as u128);
        if next > u64::MAX as u128 {
            proof {
                if forall|i: int| 0 <= i < t.len() ==> is_digit(#[trigger] t[i]) {
                    lemma_prefix_value(t, j + 1 - a);
                    assert(t.subrange(0, j + 1 - a) =~= s@.subrange(a as int, j + 1));
                }
            }
            return None;
        }
        acc = next as u64;
        j = j + 1;
    }
    assert(s@.subrange(a as int, j as int) =~= t);
    assert forall|i: int| 0 <= i < t.len() implies is_digit(#[trigger] t[i]) by {
        assert(t[i] == s@[a + i]);
    }
    Some(acc)
}

/// Whether `s[a..b]` is exactly `key`.
pub fn word_is(s: &str, a: usize, b: usize, key: &str) -> (r: bool)
    requires
        a <= b <= s@.len(),
    ensures
        r == (s@.subrange(a as int, b as int) == key@),
{
    let m = key.unicode_len();
    if b - a != m {
        assert(s@.subrange(a as int, b as int).len() != key@.len());
        return false;
    }
    let mut j: usize = 0;
    while j < m
        invariant
            m == key@.len(),
            b - a == m,
            a <= b <= s@.len(),
            forall|i: int| 0 <= i < j ==> s@[a + i] == key@[i],
        decreases m - j,
    {
        if s.get_char(a + j) != key.get_char(j) {
            assert(s@.subrange(a as int, b as int)[j as int] != key@[j as int]);
            return false;
        }
        j = j + 1;
    }
    assert(s@.subrange(a as int, b as int) =~= key@);
    true
}

} // verus!
