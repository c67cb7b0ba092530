//! Character-level building blocks: classes of characters, prefixes and
//! suffixes made of one class, trimming, and splitting at a separator.
//!
//! Text is modelled as `Seq<char>`; the executable functions work on
//! `&[char]` and borrow from their argument.

use vstd::prelude::*;
use vstd::slice::slice_subrange;

verus! {

/// The characters that Unicode lists as `White_Space`.
pub open spec fn is_space(c: char) -> bool {
    let n = c as u32;
    ||| 0x09 <= n <= 0x0D
    ||| n == 0x20
    ||| n == 0x85
    ||| n == 0xA0
    ||| n == 0x1680
    ||| 0x2000 <= n <= 0x200A
    ||| n == 0x2028
    ||| n == 0x2029
    ||| n == 0x202F
    ||| n == 0x205F
    ||| n == 0x3000
}

/// A class of characters, as needed for scanning.
pub enum Class {
    /// Whitespace.
    Space,
    /// Anything but whitespace.
    Word,
    /// Anything but the given character.
    Until(char),
}

impl Class {
    /// Whether `c` belongs to the class.
    pub open spec fn has(self, c: char) -> bool {
        match self {
            Class::Space => is_space(c),
            Class::Word => !is_space(c),
            Class::Until(stop) => c != stop,
        }
    }

    /// Executable membership test.
    pub fn contains(&self, c: char) -> (b: bool)
        ensures
            b == self.has(c),
    {
        match self {
            Class::Space => space(c),
            Class::Word => !space(c),
            Class::Until(stop) => c != *stop,
        }
    }
}

/// Executable test for whitespace.
pub fn space(c: char) -> (b: bool)
    ensures
        b == is_space(c),
{
    let n: u32 = c as u32;
    (0x09 <= n && n <= 0x0D) || n == 0x20 || n == 0x85 || n == 0xA0 || n == 0x1680 || (0x2000 <= n
        && n <= 0x200A) || n == 0x2028 || n == 0x2029 || n == 0x202F || n == 0x205F || n == 0x3000
}

/// Length of the longest prefix of `s` whose characters all belong to `k`.
pub open spec fn span(s: Seq<char>, k: Class) -> nat
    decreases s.len(),
{
    if s.len() > 0 && k.has(s[0]) {
        1 + span(s.drop_first(), k)
    } else {
        0
    }
}

/// Length of the longest suffix of `s` whose characters all belong to `k`.
pub open spec fn tail_span(s: Seq<char>, k: Class) -> nat
    decreases s.len(),
{
    if s.len() > 0 && k.has(s.last()) {
        1 + tail_span(s.drop_last(), k)
    } else {
        0
    }
}

/// `n` is where the longest prefix of `s` in class `k` ends.
pub open spec fn ends_span(s: Seq<char>, k: Class, n: int) -> bool {
    &&& 0 <= n <= s.len()
    &&& forall|i: int| 0 <= i < n ==> k.has(#[trigger] s[i])
    &&& n < s.len() ==> !k.has(s[n])
}

/// `n` is the length of the longest suffix of `s` in class `k`.
pub open spec fn ends_tail_span(s: Seq<char>, k: Class, n: int) -> bool {
    &&& 0 <= n <= s.len()
    &&& forall|i: int| s.len() - n <= i < s.len() ==> k.has(#[trigger] s[i])
    &&& n < s.len() ==> !k.has(s[s.len() - n - 1])
}

/// `span` is the one position that `ends_span` describes.
pub proof fn lemma_span(s: Seq<char>, k: Class)
    ensures
        ends_span(s, k, span(s, k) as int),
        forall|n: int| ends_span(s, k, n) ==> n == span(s, k),
    decreases s.len(),
{
    if s.len() > 0 && k.has(s[0]) {
        let t = s.drop_first();
        lemma_span(t, k);
        let m = span(t, k) as int;
        assert forall|i: int| 0 <= i < m + 1 implies k.has(#[trigger] s[i]) by {
            if i > 0 {
                assert(s[i] == t[i - 1]);
            }
        }
        if m + 1 < s.len() {
            assert(s[m + 1] == t[m]);
        }
        assert forall|n: int| ends_span(s, k, n) implies n == span(s, k) by {
            if n == 0 {
                assert(!k.has(s[0]));
            } else {
                assert forall|i: int| 0 <= i < n - 1 implies k.has(#[trigger] t[i]) by {
                    assert(t[i] == s[i + 1]);
                }
                if n - 1 < t.len() {
                    assert(t[n - 1] == s[n]);
                }
                assert(ends_span(t, k, n - 1));
            }
        }
    } else {
        assert forall|n: int| ends_span(s, k, n) implies n == 0 by {
            if n > 0 {
                assert(k.has(s[0]));
            }
        }
    }
}

/// `tail_span` is the one length that `ends_tail_span` describes.
pub proof fn lemma_tail_span(s: Seq<char>, k: Class)
    ensures
        ends_tail_span(s, k, tail_span(s, k) as int),
        forall|n: int| ends_tail_span(s, k, n) ==> n == tail_span(s, k),
    decreases s.len(),
{
    if s.len() > 0 && k.has(s.last()) {
        let t = s.drop_last();
        lemma_tail_span(t, k);
        let m = tail_span(t, k) as int;
        assert forall|i: int| s.len() - (m + 1) <= i < s.len() implies k.has(#[trigger] s[i]) by {
            if i < s.len() - 1 {
                assert(s[i] == t[i]);
            }
        }
        if m + 1 < s.len() {
            assert(s[s.len() - (m + 1) - 1] == t[t.len() - m - 1]);
        }
        assert forall|n: int| ends_tail_span(s, k, n) implies n == tail_span(s, k) by {
            if n == 0 {
                assert(!k.has(s[s.len() - 1]));
            } else {
                assert forall|i: int| t.len() - (n - 1) <= i < t.len() implies k.has(
                    #[trigger] t[i],
                ) by {
                    assert(t[i] == s[i]);
                }
                if n - 1 < t.len() {
                    assert(t[t.len() - (n - 1) - 1] == s[s.len() - n - 1]);
                }
                assert(ends_tail_span(t, k, n - 1));
            }
        }
    } else {
        assert forall|n: int| ends_tail_span(s, k, n) implies n == 0 by {
            if n > 0 {
                assert(k.has(s[s.len() - 1]));
            }
        }
    }
}

/// Executable `span`: how many leading characters of `s` belong to `k`.
pub fn scan(s: &[char], k: &Class) -> (n: usize)
    ensures
        n == span(s@, *k),
        n <= s@.len(),
{
    let mut i: usize = 0;
    while i < s.len() && k.contains(s[i])
        invariant
            i <= s@.len(),
            forall|j: int| 0 <= j < i ==> k.has(#[trigger] s@[j]),
        decreases s@.len() - i,
    {
        i += 1;
    }
    proof {
        lemma_span(s@, *k);
        assert(ends_span(s@, *k, i as int));
    }
    i
}

/// Executable `tail_span`: how many trailing characters of `s` belong to `k`.
pub fn scan_back(s: &[char], k: &Class) -> (n: usize)
    ensures
        n == tail_span(s@, *k),
        n <= s@.len(),
{
    let len: usize = s.len();
    let mut i: usize = 0;
    while i < len && k.contains(s[len - i - 1])
        invariant
            len == s@.len(),
            i <= len,
            forall|j: int| len - i <= j < len ==> k.has(#[trigger] s@[j]),
        decreases len - i,
    {
        i += 1;
    }
    proof {
        lemma_tail_span(s@, *k);
        assert(ends_tail_span(s@, *k, i as int));
    }
    i
}

/// `s` without its leading whitespace.
pub open spec fn trim_start(s: Seq<char>) -> Seq<char> {
    s.skip(span(s, Class::Space) as int)
}

/// `s` without its trailing whitespace.
pub open spec fn trim_end(s: Seq<char>) -> Seq<char> {
    s.take(s.len() - tail_span(s, Class::Space))
}

/// `s` without leading and trailing whitespace.
pub open spec fn trim(s: Seq<char>) -> Seq<char> {
    trim_end(trim_start(s))
}

/// Executable `trim`.
pub fn trimmed(s: &[char]) -> (r: &[char])
    ensures
        r@ == trim(s@),
{
    let a: usize = scan(s, &Class::Space);
    let t = slice_subrange(s, a, s.len());
    assert(t@ == trim_start(s@));
    let b: usize = scan_back(t, &Class::Space);
    slice_subrange(t, 0, t.len() - b)
}

/// The part of `s` before the first `c` and the part after it, if `c` occurs.
pub open spec fn cut(s: Seq<char>, c: char) -> Option<(Seq<char>, Seq<char>)> {
    let i = span(s, Class::Until(c)) as int;
    if i < s.len() {
        Some((s.take(i), s.skip(i + 1)))
    } else {
        None
    }
}

/// Executable `cut`.
pub fn split_once(s: &[char], c: char) -> (r: Option<(&[char], &[char])>)
    ensures
        match r {
            Some((a, b)) => cut(s@, c) == Some((a@, b@)),
            None => cut(s@, c) is None,
        },
{
    let i: usize = scan(s, &Class::Until(c));
    if i < s.len() {
        Some((slice_subrange(s, 0, i), slice_subrange(s, i + 1, s.len())))
    } else {
        None
    }
}

/// The views of a sequence of slices.
pub open spec fn views(v: Seq<&[char]>) -> Seq<Seq<char>> {
    Seq::new(v.len(), |i: int| v[i]@)
}

/// The maximal runs of characters other than whitespace, in order.
pub open spec fn words(s: Seq<char>) -> Seq<Seq<char>>
    decreases s.len(),
{
    let t = trim_start(s);
    if t.len() == 0 {
        Seq::empty()
    } else {
        let n = span(t, Class::Word) as int;
        proof {
            lemma_span(s, Class::Space);
            lemma_span(t, Class::Word);
        }
        seq![t.take(n)] + words(t.skip(n))
    }
}

/// Executable `words`.
pub fn split_words(s: &[char]) -> (r: Vec<&[char]>)
    ensures
        views(r@) == words(s@),
{
    let mut out: Vec<&[char]> = Vec::new();
    let mut rest: &[char] = s;
    loop
        invariant
            words(s@) == views(out@) + words(rest@),
        ensures
            words(s@) == views(out@),
        decreases rest@.len(),
    {
        let a: usize = scan(rest, &Class::Space);
        let t = slice_subrange(rest, a, rest.len());
        assert(t@ == trim_start(rest@));
        if t.len() == 0 {
            assert(views(out@) + words(rest@) =~= views(out@));
            break ;
        }
        let n: usize = scan(t, &Class::Word);
        proof {
            lemma_span(rest@, Class::Space);
            lemma_span(t@, Class::Word);
        }
        let w = slice_subrange(t, 0, n);
        let ghost before = out@;
        out.push(w);
        let next = slice_subrange(t, n, t.len());
        assert(views(out@) =~= views(before) + seq![w@]);
        assert(words(rest@) == seq![w@] + words(next@));
        assert(views(before) + (seq![w@] + words(next@)) =~= views(out@) + words(next@));
        rest = next;
    }
    out
}

/// `s` without one trailing carriage return.
pub open spec fn strip_cr(s: Seq<char>) -> Seq<char> {
    if s.len() > 0 && s.last() == '\r' {
        s.drop_last()
    } else {
        s
    }
}

/// The lines of `s`: the pieces that end at each line feed, and what follows
/// the last line feed unless that is empty; each without its line feed and
/// without one carriage return before it.
pub open spec fn lines(s: Seq<char>) -> Seq<Seq<char>>
    decreases s.len(),
{
    if s.len() == 0 {
        Seq::empty()
    } else {
        let i = span(s, Class::Until('\n')) as int;
        if i < s.len() {
            seq![strip_cr(s.take(i))] + lines(s.skip(i + 1))
        } else {
            seq![strip_cr(s)]
        }
    }
}

/// Executable `lines`.
pub fn split_lines(s: &[char]) -> (r: Vec<&[char]>)
    ensures
        views(r@) == lines(s@),
{
    let mut out: Vec<&[char]> = Vec::new();
    let mut rest: &[char] = s;
    while rest.len() > 0
        invariant
            lines(s@) == views(out@) + lines(rest@),
        decreases rest@.len(),
    {
        let i: usize = scan(rest, &Class::Until('\n'));
        let mut end: usize = i;
        if end > 0 && rest[end - 1] == '\r' {
            end -= 1;
        }
        let line = slice_subrange(rest, 0, end);
        assert(line@ =~= strip_cr(rest@.take(i as int)));
        let next = if i < rest.len() {
            slice_subrange(rest, i + 1, rest.len())
        } else {
            slice_subrange(rest, i, rest.len())
        };
        let ghost before = out@;
        out.push(line);
        assert(views(out@) =~= views(before) + seq![line@]);
        assert(rest@.take(rest@.len() as int) =~= rest@);
        assert(lines(rest@) =~= seq![line@] + lines(next@));
        assert(views(before) + (seq![line@] + lines(next@)) =~= views(out@) + lines(next@));
        rest = next;
    }
    assert(views(out@) + lines(rest@) =~= views(out@));
    out
}

/// `s` is a word: it is not empty and holds no whitespace.
pub open spec fn is_word(s: Seq<char>) -> bool {
    &&& s.len() > 0
    &&& forall|i: int| 0 <= i < s.len() ==> !is_space(#[trigger] s[i])
}

/// `s` does not hold the character `c`.
pub open spec fn lacks(s: Seq<char>, c: char) -> bool {
    forall|i: int| 0 <= i < s.len() ==> #[trigger] s[i] != c
}

/// A space in front of a text does not change what trimming leaves of it.
pub proof fn lemma_trim_after_space(c: char, s: Seq<char>)
    requires
        is_space(c),
    ensures
        trim_start(seq![c] + s) == trim_start(s),
        trim(seq![c] + s) == trim(s),
        words(seq![c] + s) == words(s),
{
    let t = seq![c] + s;
    assert(t.drop_first() =~= s);
    assert(t[0] == c);
    assert(span(t, Class::Space) == 1 + span(s, Class::Space));
    lemma_span(s, Class::Space);
    assert(trim_start(t) =~= trim_start(s));
}

/// Trimming leaves something of a text that holds a character other than
/// whitespace.
pub proof fn lemma_trim_nonblank(s: Seq<char>, i: int)
    requires
        0 <= i < s.len(),
        !is_space(s[i]),
    ensures
        trim(s).len() > 0,
{
    lemma_span(s, Class::Space);
    let a = span(s, Class::Space) as int;
    if a > i {
        assert(Class::Space.has(s[i]));
    }
    let t = trim_start(s);
    lemma_tail_span(t, Class::Space);
    let b = tail_span(t, Class::Space) as int;
    if t.len() - b <= i - a {
        assert(Class::Space.has(t[i - a]));
    }
}

/// Where a word is followed by nothing or by whitespace, it is the first
/// word, and the others are those of what follows.
pub proof fn lemma_words_first(w: Seq<char>, rest: Seq<char>)
    requires
        is_word(w),
        rest.len() == 0 || is_space(rest[0]),
    ensures
        words(w + rest) == seq![w] + words(rest),
{
    let s = w + rest;
    assert(s[0] == w[0]);
    assert(span(s, Class::Space) == 0);
    assert(trim_start(s) =~= s);
    lemma_span(s, Class::Word);
    assert(ends_span(s, Class::Word, w.len() as int)) by {
        assert forall|i: int| 0 <= i < w.len() implies Class::Word.has(#[trigger] s[i]) by {
            assert(s[i] == w[i]);
        }
        if w.len() < s.len() {
            assert(s[w.len() as int] == rest[0]);
        }
    }
    assert(s.take(w.len() as int) =~= w);
    assert(s.skip(w.len() as int) =~= rest);
}

/// A text that ends with a carriage return and a line feed is one line more
/// than what follows it, where the text itself holds no line feed.
pub proof fn lemma_lines_first(a: Seq<char>, rest: Seq<char>)
    requires
        lacks(a, '\n'),
    ensures
        lines(a + seq!['\r', '\n'] + rest) == seq![a] + lines(rest),
{
    let s = a + seq!['\r', '\n'] + rest;
    let n = a.len() as int;
    lemma_span(s, Class::Until('\n'));
    assert(ends_span(s, Class::Until('\n'), n + 1)) by {
        assert forall|i: int| 0 <= i < n + 1 implies Class::Until('\n').has(#[trigger] s[i]) by {
            if i < n {
                assert(s[i] == a[i]);
            } else {
                assert(s[i] == '\r');
            }
        }
        assert(s[n + 1] == '\n');
    }
    assert(s.take(n + 1) =~= a.push('\r'));
    assert(a.push('\r').drop_last() =~= a);
    assert(s.skip(n + 2) =~= rest);
}

/// Each of the words of a text is a word.
pub proof fn lemma_words_are_words(s: Seq<char>)
    ensures
        forall|i: int| 0 <= i < words(s).len() ==> is_word(#[trigger] words(s)[i]),
    decreases s.len(),
{
    let t = trim_start(s);
    if t.len() > 0 {
        lemma_span(s, Class::Space);
        lemma_span(t, Class::Word);
        let n = span(t, Class::Word) as int;
        let first = t.take(n);
        let rest = words(t.skip(n));
        lemma_words_are_words(t.skip(n));
        assert(t[0] == s[span(s, Class::Space) as int]);
        assert(is_word(first)) by {
            assert forall|i: int| 0 <= i < first.len() implies !is_space(#[trigger] first[i]) by {
                assert(Class::Word.has(t[i]));
            }
        }
        assert forall|i: int| 0 <= i < words(s).len() implies is_word(#[trigger] words(s)[i]) by {
            if i > 0 {
                assert(words(s)[i] == rest[i - 1]);
            }
        }
    }
}

} // verus!
