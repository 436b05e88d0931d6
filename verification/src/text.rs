//! Character-level text handling: white space, splitting, lines, trimming,
//! prefixes, joining and removal of substrings, each stated over `Seq<char>`.
use vstd::prelude::*;

verus! {

/// The characters that Unicode classifies as `White_Space`; this is what
/// `char::is_whitespace` tests for.
pub open spec fn is_ws(c: char) -> bool {
    ||| ('\u{9}' <= c && c <= '\u{d}')
    ||| c == ' '
    ||| c == '\u{85}'
    ||| c == '\u{a0}'
    ||| c == '\u{1680}'
    ||| ('\u{2000}' <= c && c <= '\u{200a}')
    ||| c == '\u{2028}'
    ||| c == '\u{2029}'
    ||| c == '\u{202f}'
    ||| c == '\u{205f}'
    ||| c == '\u{3000}'
}

/// Whether `c` is a Unicode white-space character.
pub fn is_whitespace(c: char) -> (r: bool)
    ensures
        r == is_ws(c),
{
    ('\u{9}' <= c && c <= '\u{d}') || c == ' ' || c == '\u{85}' || c == '\u{a0}' || c
        == '\u{1680}' || ('\u{2000}' <= c && c <= '\u{200a}') || c == '\u{2028}' || c
        == '\u{2029}' || c == '\u{202f}' || c == '\u{205f}' || c == '\u{3000}'
}

/// The views of a sequence of character vectors.
pub open spec fn views(v: Seq<Vec<char>>) -> Seq<Seq<char>> {
    Seq::new(v.len(), |i: int| v[i]@)
}

/// The views of a sequence of strings.
pub open spec fn string_views(v: Seq<String>) -> Seq<Seq<char>> {
    Seq::new(v.len(), |i: int| v[i]@)
}

// ---------------------------------------------------------------------------
// Splitting on white space
// ---------------------------------------------------------------------------
/// The white-space separated words of `s` from position `i` on, where `start`
/// is the first position of the word being read (or -1 when between words).
/// Words are maximal runs of non-white-space characters.
pub open spec fn words_scan(s: Seq<char>, start: int, i: int) -> Seq<Seq<char>>
    decreases s.len() - i,
{
    if i >= s.len() {
        if start >= 0 {
            seq![s.subrange(start, s.len() as int)]
        } else {
            seq![]
        }
    } else if is_ws(s[i]) {
        if start >= 0 {
            seq![s.subrange(start, i)] + words_scan(s, -1, i + 1)
        } else {
            words_scan(s, -1, i + 1)
        }
    } else if start >= 0 {
        words_scan(s, start, i + 1)
    } else {
        words_scan(s, i, i + 1)
    }
}

/// The words of `s` as `str::split_whitespace` yields them.
pub open spec fn words(s: Seq<char>) -> Seq<Seq<char>> {
    words_scan(s, -1, 0)
}

proof fn lemma_words_scan_in_word(s: Seq<char>, start: int, i: int, k: int)
    requires
        start >= 0,
        0 <= i <= k <= s.len(),
        forall|j: int| i <= j < k ==> !is_ws(s[j]),
    ensures
        words_scan(s, start, i) == words_scan(s, start, k),
    decreases k - i,
{
    if i < k {
        lemma_words_scan_in_word(s, start, i + 1, k);
    }
}

/// A run of non-white-space characters from `i` up to white space at `e`
/// is the next word.
pub proof fn lemma_word_at(s: Seq<char>, i: int, e: int)
    requires
        0 <= i < e < s.len(),
        forall|j: int| i <= j < e ==> !is_ws(s[j]),
        is_ws(s[e]),
    ensures
        words_scan(s, -1, i) == seq![s.subrange(i, e)] + words_scan(s, -1, e + 1),
{
    lemma_words_scan_in_word(s, i, i + 1, e);
}

/// A run of non-white-space characters from `i` to the end is the last word.
pub proof fn lemma_last_word(s: Seq<char>, i: int)
    requires
        0 <= i < s.len(),
        forall|j: int| i <= j < s.len() ==> !is_ws(s[j]),
    ensures
        words_scan(s, -1, i) == seq![s.subrange(i, s.len() as int)],
{
    lemma_words_scan_in_word(s, i, i + 1, s.len() as int);
}

/// Words without white space, joined by single spaces, are the words of the
/// text.
pub proof fn law_words_of_spaced(a: Seq<char>, b: Seq<char>)
    requires
        a.len() > 0,
        b.len() > 0,
        forall|j: int| 0 <= j < a.len() ==> !is_ws(a[j]),
        forall|j: int| 0 <= j < b.len() ==> !is_ws(b[j]),
    ensures
        words(a) == seq![a],
        words(a + seq![' '] + b) == seq![a, b],
{
    lemma_last_word(a, 0);
    assert(a.subrange(0, a.len() as int) =~= a);
    let s = a + seq![' '] + b;
    let n = a.len() as int;
    assert forall|j: int| 0 <= j < n implies !is_ws(s[j]) by {
        assert(s[j] == a[j]);
    }
    assert forall|j: int| n + 1 <= j < s.len() implies !is_ws(s[j]) by {
        assert(s[j] == b[j - n - 1]);
    }
    lemma_word_at(s, 0, n);
    lemma_last_word(s, n + 1);
    assert(s.subrange(0, n) =~= a);
    assert(s.subrange(n + 1, s.len() as int) =~= b);
    assert(words(s) =~= seq![a, b]);
}

/// Three words without white space, joined by single spaces, are the words
/// of the text.
pub proof fn lemma_three_words(a: Seq<char>, b: Seq<char>, c: Seq<char>)
    requires
        a.len() > 0,
        b.len() > 0,
        c.len() > 0,
        forall|j: int| 0 <= j < a.len() ==> !is_ws(a[j]),
        forall|j: int| 0 <= j < b.len() ==> !is_ws(b[j]),
        forall|j: int| 0 <= j < c.len() ==> !is_ws(c[j]),
    ensures
        words(a + seq![' '] + b + seq![' '] + c) == seq![a, b, c],
{
    let s = a + seq![' '] + b + seq![' '] + c;
    let n1 = a.len() as int;
    let n2 = n1 + 1 + b.len();
    assert forall|j: int| 0 <= j < n1 implies !is_ws(s[j]) by {
        assert(s[j] == a[j]);
    }
    assert forall|j: int| n1 + 1 <= j < n2 implies !is_ws(s[j]) by {
        assert(s[j] == b[j - n1 - 1]);
    }
    assert forall|j: int| n2 + 1 <= j < s.len() implies !is_ws(s[j]) by {
        assert(s[j] == c[j - n2 - 1]);
    }
    lemma_word_at(s, 0, n1);
    lemma_word_at(s, n1 + 1, n2);
    lemma_last_word(s, n2 + 1);
    assert(s.subrange(0, n1) =~= a);
    assert(s.subrange(n1 + 1, n2) =~= b);
    assert(s.subrange(n2 + 1, s.len() as int) =~= c);
    assert(words(s) =~= seq![a, b, c]);
}

/// Copies `s[a..b]` into a new vector.
pub fn copy_range(s: &[char], a: usize, b: usize) -> (r: Vec<char>)
    requires
        a <= b <= s@.len(),
    ensures
        r@ == s@.subrange(a as int, b as int),
{
    let mut r: Vec<char> = Vec::new();
    let mut k = a;
    while k < b
        invariant
            a <= k <= b <= s@.len(),
            r@ == s@.subrange(a as int, k as int),
        decreases b - k,
    {
        r.push(s[k]);
        k += 1;
        assert(r@ =~= s@.subrange(a as int, k as int));
    }
    r
}

/// The white-space separated words of `s`, as `str::split_whitespace` gives them.
pub fn split_whitespace(s: &[char]) -> (r: Vec<Vec<char>>)
    ensures
        views(r@) == words(s@),
{
    let mut r: Vec<Vec<char>> = Vec::new();
    let mut in_word = false;
    let mut start: usize = 0;
    let mut i: usize = 0;
    while i < s.len()
        invariant
            i <= s@.len(),
            in_word ==> start < i,
            views(r@) + words_scan(s@, if in_word { start as int } else { -1 }, i as int) == words(
                s@,
            ),
        decreases s@.len() - i,
    {
        let ghost before = views(r@);
        if is_whitespace(s[i]) {
            if in_word {
                let w = copy_range(s, start, i);
                r.push(w);
                assert(views(r@) =~= before.push(s@.subrange(start as int, i as int)));
                assert(before + words_scan(s@, start as int, i as int) =~= views(r@)
                    + words_scan(s@, -1, i + 1));
            }
            in_word = false;
        } else if !in_word {
            in_word = true;
            start = i;
        }
        i += 1;
    }
    if in_word {
        let w = copy_range(s, start, s.len());
        let ghost before = views(r@);
        r.push(w);
        assert(views(r@) =~= before.push(s@.subrange(start as int, s@.len() as int)));
    }
    assert(views(r@) =~= words(s@));
    r
}


// ---------------------------------------------------------------------------
// Splitting on a separator character
// ---------------------------------------------------------------------------
/// The pieces of `s` between occurrences of `sep`, scanning from `i` with the
/// current piece starting at `start`.
pub open spec fn split_scan(s: Seq<char>, sep: char, start: int, i: int) -> Seq<Seq<char>>
    decreases s.len() - i,
{
    if i >= s.len() {
        seq![s.subrange(start, s.len() as int)]
    } else if s[i] == sep {
        seq![s.subrange(start, i)] + split_scan(s, sep, i + 1, i + 1)
    } else {
        split_scan(s, sep, start, i + 1)
    }
}

/// The pieces of `s` as `str::split` with a character separator yields them:
/// always at least one piece, and one more for each occurrence of `sep`.
pub open spec fn split(s: Seq<char>, sep: char) -> Seq<Seq<char>> {
    split_scan(s, sep, 0, 0)
}

/// Scanning over characters that are not `sep` adds no piece.
pub proof fn lemma_split_scan_skip(s: Seq<char>, sep: char, start: int, i: int, k: int)
    requires
        0 <= i <= k <= s.len(),
        forall|j: int| i <= j < k ==> s[j] != sep,
    ensures
        split_scan(s, sep, start, i) == split_scan(s, sep, start, k),
    decreases k - i,
{
    if i < k {
        lemma_split_scan_skip(s, sep, start, i + 1, k);
    }
}

/// Text without `sep` is a single piece.
pub proof fn lemma_split_whole(s: Seq<char>, sep: char)
    requires
        !s.contains(sep),
    ensures
        split(s, sep) == seq![s],
{
    assert forall|j: int| 0 <= j < s.len() implies s[j] != sep by {
        if s[j] == sep {
            assert(s.contains(sep));
        }
    }
    lemma_split_scan_skip(s, sep, 0, 0, s.len() as int);
    assert(s.subrange(0, s.len() as int) =~= s);
}

proof fn lemma_split_scan_append(a: Seq<char>, sep: char, b: Seq<char>, st: int, i: int)
    requires
        !b.contains(sep),
        0 <= st <= i <= a.len(),
    ensures
        split_scan(a + seq![sep] + b, sep, st, i) == split_scan(a, sep, st, i).push(b),
    decreases a.len() - i,
{
    let s = a + seq![sep] + b;
    let n = a.len() as int;
    if i == n {
        assert forall|j: int| n + 1 <= j < s.len() implies s[j] != sep by {
            assert(s[j] == b[j - n - 1]);
            if s[j] == sep {
                assert(b.contains(sep));
            }
        }
        lemma_split_scan_skip(s, sep, n + 1, n + 1, s.len() as int);
        assert(s[n] == sep);
        assert(s.subrange(st, n) =~= a.subrange(st, n));
        assert(s.subrange(n + 1, s.len() as int) =~= b);
        assert(split_scan(s, sep, st, i) =~= split_scan(a, sep, st, i).push(b));
    } else {
        assert(s[i] == a[i]);
        if a[i] == sep {
            lemma_split_scan_append(a, sep, b, i + 1, i + 1);
            assert(s.subrange(st, i) =~= a.subrange(st, i));
            assert(split_scan(s, sep, st, i) =~= split_scan(a, sep, st, i).push(b));
        } else {
            lemma_split_scan_append(a, sep, b, st, i + 1);
        }
    }
}

/// A separator and a last piece without separators, added at the end of a
/// text, add that piece at the end of its pieces.
pub proof fn lemma_split_append(a: Seq<char>, sep: char, b: Seq<char>)
    requires
        !b.contains(sep),
    ensures
        split(a + seq![sep] + b, sep) == split(a, sep).push(b),
{
    lemma_split_scan_append(a, sep, b, 0, 0);
}

/// The pieces of `s` between occurrences of `sep`, as `str::split` gives them.
pub fn split_char(s: &[char], sep: char) -> (r: Vec<Vec<char>>)
    ensures
        views(r@) == split(s@, sep),
{
    let mut r: Vec<Vec<char>> = Vec::new();
    let mut start: usize = 0;
    let mut i: usize = 0;
    while i < s.len()
        invariant
            start <= i <= s@.len(),
            views(r@) + split_scan(s@, sep, start as int, i as int) == split(s@, sep),
        decreases s@.len() - i,
    {
        if s[i] == sep {
            let ghost before = views(r@);
            let w = copy_range(s, start, i);
            r.push(w);
            assert(views(r@) =~= before.push(s@.subrange(start as int, i as int)));
            assert(before + split_scan(s@, sep, start as int, i as int) =~= views(r@) + split_scan(
                s@,
                sep,
                i + 1,
                i + 1,
            ));
            i += 1;
            start = i;
        } else {
            i += 1;
        }
    }
    let ghost before = views(r@);
    let w = copy_range(s, start, s.len());
    r.push(w);
    assert(views(r@) =~= before.push(s@.subrange(start as int, s@.len() as int)));
    assert(views(r@) =~= split(s@, sep));
    r
}

/// The position of the first `c` in `s`, or the length of `s` when there is none.
pub open spec fn find_char(s: Seq<char>, c: char) -> int
    decreases s.len(),
{
    if s.len() == 0 {
        0
    } else if s[0] == c {
        0
    } else {
        1 + find_char(s.drop_first(), c)
    }
}

/// Facts about `find_char`: it is a position in `s` (or its length), and no
/// earlier character is `c`.
pub proof fn lemma_find_char(s: Seq<char>, c: char)
    ensures
        0 <= find_char(s, c) <= s.len(),
        find_char(s, c) < s.len() ==> s[find_char(s, c)] == c,
        forall|k: int| 0 <= k < find_char(s, c) ==> s[k] != c,
    decreases s.len(),
{
    if s.len() > 0 && s[0] != c {
        lemma_find_char(s.drop_first(), c);
        assert forall|k: int| 0 <= k < find_char(s, c) implies s[k] != c by {
            if k > 0 {
                assert(s[k] == s.drop_first()[k - 1]);
            }
        }
    }
}

/// The position of the first `c` in `s`, or `s.len()` when there is none.
pub fn find_first(s: &[char], c: char) -> (r: usize)
    ensures
        r == find_char(s@, c),
{
    proof {
        lemma_find_char(s@, c);
    }
    let mut i: usize = 0;
    while i < s.len()
        invariant
            i <= s@.len(),
            forall|k: int| 0 <= k < i ==> s@[k] != c,
        decreases s@.len() - i,
    {
        if s[i] == c {
            proof {
                lemma_find_char_at(s@, c, i as int);
            }
            return i;
        }
        i += 1;
    }
    proof {
        lemma_find_char_at(s@, c, s@.len() as int);
    }
    i
}

/// `find_char` is the position `k` when no character before `k` is `c` and `k`
/// is either the end or a `c`.
pub proof fn lemma_find_char_at(s: Seq<char>, c: char, k: int)
    requires
        0 <= k <= s.len(),
        forall|j: int| 0 <= j < k ==> s[j] != c,
        k < s.len() ==> s[k] == c,
    ensures
        find_char(s, c) == k,
    decreases s.len(),
{
    if s.len() > 0 && k > 0 {
        assert forall|j: int| 0 <= j < k - 1 implies s.drop_first()[j] != c by {
            assert(s.drop_first()[j] == s[j + 1]);
        }
        lemma_find_char_at(s.drop_first(), c, k - 1);
    }
}

// ---------------------------------------------------------------------------
// Lines
// ---------------------------------------------------------------------------
/// `line` without one trailing carriage return.
pub open spec fn strip_cr(line: Seq<char>) -> Seq<char> {
    if line.len() > 0 && line.last() == '\r' {
        line.drop_last()
    } else {
        line
    }
}

/// The lines of `s` from position `i` on, the current line starting at `start`.
pub open spec fn lines_scan(s: Seq<char>, start: int, i: int) -> Seq<Seq<char>>
    decreases s.len() - i,
{
    if i >= s.len() {
        if start < s.len() {
            seq![s.subrange(start, s.len() as int)]
        } else {
            seq![]
        }
    } else if s[i] == '\n' {
        seq![strip_cr(s.subrange(start, i))] + lines_scan(s, i + 1, i + 1)
    } else {
        lines_scan(s, start, i + 1)
    }
}

/// The lines of `s` as `str::lines` yields them: split at each `\n`, a `\r`
/// just before the `\n` removed, and no empty last line after a final `\n`.
pub open spec fn lines(s: Seq<char>) -> Seq<Seq<char>> {
    lines_scan(s, 0, 0)
}

/// Scanning over characters that are not `\n` adds no line.
pub proof fn lemma_lines_scan_skip(s: Seq<char>, start: int, i: int, k: int)
    requires
        0 <= i <= k <= s.len(),
        forall|j: int| i <= j < k ==> s[j] != '\n',
    ensures
        lines_scan(s, start, i) == lines_scan(s, start, k),
    decreases k - i,
{
    if i < k {
        lemma_lines_scan_skip(s, start, i + 1, k);
    }
}

/// The first line of a text that begins with `line` and a newline is `line`
/// without a trailing carriage return, whatever follows.
pub proof fn lemma_first_line(line: Seq<char>, rest: Seq<char>)
    requires
        !line.contains('\n'),
    ensures
        lines(line + seq!['\n'] + rest).len() > 0,
        lines(line + seq!['\n'] + rest)[0] == strip_cr(line),
{
    let s = line + seq!['\n'] + rest;
    let n = line.len() as int;
    assert forall|j: int| 0 <= j < n implies s[j] != '\n' by {
        assert(s[j] == line[j]);
    }
    lemma_lines_scan_skip(s, 0, 0, n);
    assert(s[n] == '\n');
    assert(s.subrange(0, n) =~= line);
}

/// The lines of `s`, as `str::lines` gives them.
pub fn split_lines(s: &[char]) -> (r: Vec<Vec<char>>)
    ensures
        views(r@) == lines(s@),
{
    let mut r: Vec<Vec<char>> = Vec::new();
    let mut start: usize = 0;
    let mut i: usize = 0;
    while i < s.len()
        invariant
            start <= i <= s@.len(),
            views(r@) + lines_scan(s@, start as int, i as int) == lines(s@),
        decreases s@.len() - i,
    {
        if s[i] == '\n' {
            let ghost before = views(r@);
            let end = if i > start && s[i - 1] == '\r' {
                i - 1
            } else {
                i
            };
            let w = copy_range(s, start, end);
            r.push(w);
            assert(s@.subrange(start as int, end as int) =~= strip_cr(
                s@.subrange(start as int, i as int),
            ));
            assert(views(r@) =~= before.push(strip_cr(s@.subrange(start as int, i as int))));
            assert(before + lines_scan(s@, start as int, i as int) =~= views(r@) + lines_scan(
                s@,
                i + 1,
                i + 1,
            ));
            i += 1;
            start = i;
        } else {
            i += 1;
        }
    }
    if start < s.len() {
        let ghost before = views(r@);
        let w = copy_range(s, start, s.len());
        r.push(w);
        assert(views(r@) =~= before.push(s@.subrange(start as int, s@.len() as int)));
    }
    assert(views(r@) =~= lines(s@));
    r
}

// ---------------------------------------------------------------------------
// Trimming
// ---------------------------------------------------------------------------
/// `s` without its leading white space.
pub open spec fn trim_start(s: Seq<char>) -> Seq<char>
    decreases s.len(),
{
    if s.len() > 0 && is_ws(s[0]) {
        trim_start(s.drop_first())
    } else {
        s
    }
}

/// `s` without its trailing white space.
pub open spec fn trim_end(s: Seq<char>) -> Seq<char>
    decreases s.len(),
{
    if s.len() > 0 && is_ws(s.last()) {
        trim_end(s.drop_last())
    } else {
        s
    }
}

proof fn lemma_trim_start_of(w: Seq<char>, r: Seq<char>)
    requires
        forall|j: int| 0 <= j < w.len() ==> is_ws(w[j]),
        r.len() > 0 ==> !is_ws(r[0]),
    ensures
        trim_start(w + r) == r,
    decreases w.len(),
{
    if w.len() == 0 {
        assert(w + r =~= r);
    } else {
        assert((w + r)[0] == w[0]);
        assert((w + r).drop_first() =~= w.drop_first() + r);
        lemma_trim_start_of(w.drop_first(), r);
    }
}

proof fn lemma_trim_end_of(r: Seq<char>, w: Seq<char>)
    requires
        forall|j: int| 0 <= j < w.len() ==> is_ws(w[j]),
        r.len() > 0 ==> !is_ws(r.last()),
    ensures
        trim_end(r + w) == r,
    decreases w.len(),
{
    if w.len() == 0 {
        assert(r + w =~= r);
    } else {
        assert((r + w).last() == w.last());
        assert((r + w).drop_last() =~= r + w.drop_last());
        lemma_trim_end_of(r, w.drop_last());
    }
}

/// White space around a text that neither begins nor ends with white space
/// is what trimming takes off.
pub proof fn law_trim_takes_surrounding_space(w1: Seq<char>, t: Seq<char>, w2: Seq<char>)
    requires
        forall|j: int| 0 <= j < w1.len() ==> is_ws(w1[j]),
        forall|j: int| 0 <= j < w2.len() ==> is_ws(w2[j]),
        t.len() > 0 ==> !is_ws(t[0]) && !is_ws(t.last()),
    ensures
        trim(w1 + t + w2) == t,
{
    assert(w1 + t + w2 =~= w1 + (t + w2));
    if t.len() > 0 {
        assert((t + w2)[0] == t[0]);
    } else {
        assert(t + w2 =~= w2);
        assert forall|j: int| 0 <= j < w2.len() implies is_ws(w2[j]) by {}
    }
    if t.len() == 0 {
        lemma_trim_start_of(w1 + w2, Seq::<char>::empty());
        assert(w1 + w2 + Seq::<char>::empty() =~= w1 + (t + w2));
        assert forall|j: int| 0 <= j < (w1 + w2).len() implies is_ws((w1 + w2)[j]) by {
            if j >= w1.len() {
                assert((w1 + w2)[j] == w2[j - w1.len()]);
            }
        }
    } else {
        lemma_trim_start_of(w1, t + w2);
    }
    lemma_trim_end_of(t, w2);
}

/// `s` without leading and trailing white space, as `str::trim` gives it.
pub open spec fn trim(s: Seq<char>) -> Seq<char> {
    trim_end(trim_start(s))
}

/// `s` without leading and trailing white space.
pub fn trim_chars(s: &[char]) -> (r: Vec<char>)
    ensures
        r@ == trim(s@),
{
    let mut a: usize = 0;
    assert(s@.subrange(0, s@.len() as int) =~= s@);
    while a < s.len() && is_whitespace(s[a])
        invariant
            a <= s@.len(),
            trim_start(s@) == trim_start(s@.subrange(a as int, s@.len() as int)),
        decreases s@.len() - a,
    {
        assert(s@.subrange(a as int, s@.len() as int).drop_first() =~= s@.subrange(
            a + 1,
            s@.len() as int,
        ));
        a += 1;
    }
    let ghost t = s@.subrange(a as int, s@.len() as int);
    assert(trim_start(s@) == t);
    let mut b: usize = s.len();
    while b > a && is_whitespace(s[b - 1])
        invariant
            a <= b <= s@.len(),
            trim_end(t) == trim_end(s@.subrange(a as int, b as int)),
        decreases b,
    {
        assert(s@.subrange(a as int, b as int).drop_last() =~= s@.subrange(a as int, b - 1));
        b -= 1;
    }
    assert(t =~= s@.subrange(a as int, s@.len() as int));
    copy_range(s, a, b)
}

/// Whether `a` and `b` hold the same characters.
pub fn chars_eq(a: &[char], b: &[char]) -> (r: bool)
    ensures
        r == (a@ == b@),
{
    if a.len() != b.len() {
        return false;
    }
    let mut i: usize = 0;
    while i < a.len()
        invariant
            a@.len() == b@.len(),
            i <= a@.len(),
            forall|k: int| 0 <= k < i ==> a@[k] == b@[k],
        decreases a@.len() - i,
    {
        if a[i] != b[i] {
            return false;
        }
        i += 1;
    }
    assert(a@ =~= b@);
    true
}

/// Whether the characters of `a` are those of the text `t`.
pub fn chars_are(a: &[char], t: &str) -> (r: bool)
    ensures
        r == (a@ == t@),
{
    let tc = chars_of(t);
    chars_eq(a, tc.as_slice())
}

// ---------------------------------------------------------------------------
// Prefixes, joining, removal
// ---------------------------------------------------------------------------
/// Whether `s` begins with `p`.
pub open spec fn has_prefix(s: Seq<char>, p: Seq<char>) -> bool {
    p.len() <= s.len() && s.subrange(0, p.len() as int) == p
}

/// Whether `s` begins with `p`, as `str::starts_with` tells.
pub fn starts_with(s: &[char], p: &[char]) -> (r: bool)
    ensures
        r == has_prefix(s@, p@),
{
    if p.len() > s.len() {
        return false;
    }
    let mut i: usize = 0;
    while i < p.len()
        invariant
            p@.len() <= s@.len(),
            i <= p@.len(),
            forall|k: int| 0 <= k < i ==> s@[k] == p@[k],
        decreases p@.len() - i,
    {
        if s[i] != p[i] {
            assert(s@.subrange(0, p@.len() as int)[i as int] != p@[i as int]);
            return false;
        }
        i += 1;
    }
    assert(s@.subrange(0, p@.len() as int) =~= p@);
    true
}

/// The parts joined with `sep` between each two of them, as `join` on a
/// slice of strings gives it.
pub open spec fn join(parts: Seq<Seq<char>>, sep: Seq<char>) -> Seq<char>
    decreases parts.len(),
{
    if parts.len() == 0 {
        seq![]
    } else if parts.len() == 1 {
        parts[0]
    } else {
        join(parts.drop_last(), sep) + sep + parts.last()
    }
}

/// The parts joined with `sep`.
pub fn join_parts(parts: &Vec<Vec<char>>, sep: &[char]) -> (r: Vec<char>)
    ensures
        r@ == join(views(parts@), sep@),
{
    let mut r: Vec<char> = Vec::new();
    let mut i: usize = 0;
    while i < parts.len()
        invariant
            i <= parts@.len(),
            r@ == join(views(parts@).take(i as int), sep@),
        decreases parts@.len() - i,
    {
        let ghost before = r@;
        if i > 0 {
            append_chars(&mut r, sep);
        }
        append_chars(&mut r, &parts[i]);
        assert(views(parts@).take(i + 1).drop_last() =~= views(parts@).take(i as int));
        assert(views(parts@).take(i + 1).last() == parts@[i as int]@);
        if i == 0 {
            assert(r@ =~= join(views(parts@).take(i + 1), sep@));
        }
        i += 1;
    }
    assert(views(parts@).take(parts@.len() as int) =~= views(parts@));
    r
}

/// Appends the characters of `t` to `r`.
pub fn append_chars(r: &mut Vec<char>, t: &[char])
    ensures
        final(r)@ == old(r)@ + t@,
{
    let mut i: usize = 0;
    while i < t.len()
        invariant
            i <= t@.len(),
            r@ == old(r)@ + t@.take(i as int),
        decreases t@.len() - i,
    {
        r.push(t[i]);
        i += 1;
        assert(r@ =~= old(r)@ + t@.take(i as int));
    }
    assert(t@.take(t@.len() as int) =~= t@);
}

/// `s` with every occurrence of `pat` taken out, matches found left to right
/// without overlap, as `str::replace(pat, "")` gives it.
pub open spec fn remove_all(s: Seq<char>, pat: Seq<char>) -> Seq<char>
    decreases s.len(),
{
    if s.len() == 0 {
        seq![]
    } else if pat.len() > 0 && has_prefix(s, pat) {
        remove_all(s.subrange(pat.len() as int, s.len() as int), pat)
    } else {
        seq![s[0]] + remove_all(s.drop_first(), pat)
    }
}

/// A text that lacks one of the characters of `pat` holds no occurrence of
/// it, and loses nothing.
pub proof fn lemma_remove_absent(s: Seq<char>, pat: Seq<char>, k: int)
    requires
        0 <= k < pat.len(),
        !s.contains(pat[k]),
    ensures
        remove_all(s, pat) == s,
    decreases s.len(),
{
    if s.len() > 0 {
        if has_prefix(s, pat) {
            assert(s.subrange(0, pat.len() as int)[k] == s[k]);
            assert(s.contains(pat[k]));
        }
        lemma_remove_absent(s.drop_first(), pat, k);
        assert(s.drop_first().contains(pat[k]) ==> s.contains(pat[k])) by {
            if s.drop_first().contains(pat[k]) {
                let j = choose|j: int| 0 <= j < s.drop_first().len() && s.drop_first()[j] == pat[k];
                assert(s[j + 1] == pat[k]);
            }
        }
        assert(seq![s[0]] + s.drop_first() =~= s);
    }
}

/// A leading part that lacks the first character of `pat` is kept whole.
pub proof fn lemma_remove_keeps_front(a: Seq<char>, b: Seq<char>, pat: Seq<char>)
    requires
        pat.len() > 0,
        !a.contains(pat[0]),
    ensures
        remove_all(a + b, pat) == a + remove_all(b, pat),
    decreases a.len(),
{
    if a.len() > 0 {
        let s = a + b;
        assert(s[0] == a[0]);
        if has_prefix(s, pat) {
            assert(s.subrange(0, pat.len() as int)[0] == s[0]);
            assert(a.contains(pat[0]));
        }
        assert(!a.drop_first().contains(pat[0])) by {
            if a.drop_first().contains(pat[0]) {
                let j = choose|j: int| 0 <= j < a.drop_first().len() && a.drop_first()[j] == pat[0];
                assert(a[j + 1] == pat[0]);
            }
        }
        lemma_remove_keeps_front(a.drop_first(), b, pat);
        assert(s.drop_first() =~= a.drop_first() + b);
        assert(seq![a[0]] + a.drop_first() =~= a);
        assert(seq![a[0]] + (a.drop_first() + remove_all(b, pat)) =~= a + remove_all(b, pat));
    }
}

/// An occurrence at the front is dropped.
pub proof fn lemma_remove_front(pat: Seq<char>, rest: Seq<char>)
    requires
        pat.len() > 0,
    ensures
        remove_all(pat + rest, pat) == remove_all(rest, pat),
{
    let s = pat + rest;
    assert(s.subrange(0, pat.len() as int) =~= pat);
    assert(s.subrange(pat.len() as int, s.len() as int) =~= rest);
}

/// Whether `p` occurs in `s` at position `i`.
fn occurs_at(s: &[char], p: &[char], i: usize) -> (r: bool)
    requires
        i <= s@.len(),
    ensures
        r == has_prefix(s@.subrange(i as int, s@.len() as int), p@),
{
    let ghost t = s@.subrange(i as int, s@.len() as int);
    if p.len() > s.len() - i {
        return false;
    }
    let n = s.len();
    let mut k: usize = 0;
    while k < p.len()
        invariant
            n == s@.len(),
            i + p@.len() <= s@.len(),
            k <= p@.len(),
            t == s@.subrange(i as int, s@.len() as int),
            forall|j: int| 0 <= j < k ==> t[j] == p@[j],
        decreases p@.len() - k,
    {
        assert(i + k < n);
        if s[i + k] != p[k] {
            assert(t.subrange(0, p@.len() as int)[k as int] != p@[k as int]);
            return false;
        }
        k += 1;
    }
    assert(t.subrange(0, p@.len() as int) =~= p@);
    true
}

/// `s` with every occurrence of `pat` removed.
pub fn remove_occurrences(s: &[char], pat: &[char]) -> (r: Vec<char>)
    ensures
        r@ == remove_all(s@, pat@),
{
    let mut r: Vec<char> = Vec::new();
    let mut i: usize = 0;
    assert(s@.subrange(0, s@.len() as int) =~= s@);
    while i < s.len()
        invariant
            i <= s@.len(),
            r@ + remove_all(s@.subrange(i as int, s@.len() as int), pat@) == remove_all(s@, pat@),
        decreases s@.len() - i,
    {
        let ghost t = s@.subrange(i as int, s@.len() as int);
        if pat.len() > 0 && occurs_at(s, pat, i) {
            assert(t.subrange(pat@.len() as int, t.len() as int) =~= s@.subrange(
                i + pat@.len(),
                s@.len() as int,
            ));
            i += pat.len();
        } else {
            let ghost before = r@;
            r.push(s[i]);
            assert(t.drop_first() =~= s@.subrange(i + 1, s@.len() as int));
            assert(r@ + remove_all(s@.subrange(i + 1, s@.len() as int), pat@) =~= before + (seq![
                t[0],
            ] + remove_all(t.drop_first(), pat@)));
            i += 1;
        }
    }
    assert(s@.subrange(i as int, s@.len() as int) =~= Seq::<char>::empty());
    assert(r@ =~= remove_all(s@, pat@));
    r
}

// ---------------------------------------------------------------------------
// Conversions between strings and characters
// ---------------------------------------------------------------------------
/// The characters of `s`, in order.
pub fn chars_of(s: &str) -> (r: Vec<char>)
    ensures
        r@ == s@,
{
    let mut r: Vec<char> = Vec::new();
    for c in it: s.chars()
        invariant
            r@ == it.seq().take(it.index() as int),
            it.seq() == s@,
    {
        r.push(c);
    }
    r
}

/// `String::push`: appends one character.
#[verifier::external_body]
fn push_char(s: &mut String, c: char)
    ensures
        final(s)@ == old(s)@.push(c),
{
    s.push(c);
}

/// A string made of the characters of `cs`.
pub fn string_of(cs: &[char]) -> (r: String)
    ensures
        r@ == cs@,
{
    let mut r = String::new();
    let mut i: usize = 0;
    while i < cs.len()
        invariant
            i <= cs@.len(),
            r@ == cs@.take(i as int),
        decreases cs@.len() - i,
    {
        push_char(&mut r, cs[i]);
        i += 1;
        assert(r@ =~= cs@.take(i as int));
    }
    assert(cs@.take(cs@.len() as int) =~= cs@);
    r
}

} // verus!
