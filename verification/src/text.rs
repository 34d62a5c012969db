//! Text primitives: whitespace trimming, caseless keywords, splitting and joining.
//!
//! A text is modelled by the sequence of its characters.
use vstd::prelude::*;

verus! {

broadcast use vstd::string::group_string_axioms;

// ---------------------------------------------------------------------------
// Whitespace
// ---------------------------------------------------------------------------

/// The characters with the Unicode property `White_Space`.
pub open spec fn is_space(c: char) -> bool {
    ||| '\u{9}' <= c <= '\u{d}'
    ||| c == '\u{20}'
    ||| c == '\u{85}'
    ||| c == '\u{a0}'
    ||| c == '\u{1680}'
    ||| '\u{2000}' <= c <= '\u{200a}'
    ||| c == '\u{2028}'
    ||| c == '\u{2029}'
    ||| c == '\u{202f}'
    ||| c == '\u{205f}'
    ||| c == '\u{3000}'
}

/// `s` without its leading whitespace.
pub open spec fn trim_front(s: Seq<char>) -> Seq<char>
    decreases s.len(),
{
    if s.len() > 0 && is_space(s[0]) {
        trim_front(s.skip(1))
    } else {
        s
    }
}

/// `s` without its trailing whitespace.
pub open spec fn trim_back(s: Seq<char>) -> Seq<char>
    decreases s.len(),
{
    if s.len() > 0 && is_space(s.last()) {
        trim_back(s.drop_last())
    } else {
        s
    }
}

/// `s` without leading and trailing whitespace.
pub open spec fn trimmed(s: Seq<char>) -> Seq<char> {
    trim_back(trim_front(s))
}

/// Decides [`is_space`].
pub fn space(c: char) -> (b: bool)
    ensures
        b == is_space(c),
{
    ('\u{9}' <= c && c <= '\u{d}') || c == '\u{20}' || c == '\u{85}' || c == '\u{a0}' || c
        == '\u{1680}' || ('\u{2000}' <= c && c <= '\u{200a}') || c == '\u{2028}' || c == '\u{2029}'
        || c == '\u{202f}' || c == '\u{205f}' || c == '\u{3000}'
}

/// The characters of `s`.
pub fn chars_of(s: &str) -> (v: Vec<char>)
    ensures
        v@ == s@,
{
    let mut v: Vec<char> = Vec::new();
    for c in it: s.chars()
        invariant
            v@ == it.seq().take(it.index() as int),
            it.seq() == s@,
    {
        v.push(c);
    }
    v
}

/// `s` without leading and trailing whitespace.
pub fn trim(s: &str) -> (r: &str)
    ensures
        r@ == trimmed(s@),
{
    let cs = chars_of(s);
    let mut from: usize = 0;
    assert(s@.skip(0) =~= s@);
    while from < cs.len() && space(cs[from])
        invariant
            cs@ == s@,
            from <= cs@.len(),
            trim_front(s@) == trim_front(s@.skip(from as int)),
        decreases cs@.len() - from,
    {
        proof {
            assert(s@.skip(from as int).skip(1) =~= s@.skip(from + 1));
        }
        from = from + 1;
    }
    let ghost front = s@.skip(from as int);
    assert(trim_front(s@) == front);
    let mut to: usize = cs.len();
    assert(front =~= s@.subrange(from as int, to as int));
    while from < to && space(cs[to - 1])
        invariant
            cs@ == s@,
            from <= to <= cs@.len(),
            trim_back(front) == trim_back(s@.subrange(from as int, to as int)),
        decreases to,
    {
        proof {
            assert(s@.subrange(from as int, to as int).drop_last() =~= s@.subrange(
                from as int,
                to - 1,
            ));
        }
        to = to - 1;
    }
    s.substring_char(from, to)
}

// ---------------------------------------------------------------------------
// Equality and keywords
// ---------------------------------------------------------------------------

/// Whether two texts are the same.
pub fn same(a: &str, b: &str) -> (r: bool)
    ensures
        r == (a@ == b@),
{
    let x = chars_of(a);
    let y = chars_of(b);
    if x.len() != y.len() {
        return false;
    }
    let mut i: usize = 0;
    while i < x.len()
        invariant
            x@ == a@,
            y@ == b@,
            x@.len() == y@.len(),
            i <= x@.len(),
            forall|j: int| 0 <= j < i ==> x@[j] == y@[j],
        decreases x@.len() - i,
    {
        if x[i] != y[i] {
            return false;
        }
        i = i + 1;
    }
    assert(a@ =~= b@);
    true
}

/// Whether lower-casing `c` gives `l`, a character of a keyword in lower case.
///
/// Beside the ASCII capitals only one character has an ASCII lower case of its own:
/// the Kelvin sign U+212A, whose lower case is `k`.
pub open spec fn folds_to(c: char, l: char) -> bool {
    ||| c == l
    ||| 'A' <= c <= 'Z' && c as int + 32 == l as int
    ||| c == '\u{212a}' && l == 'k'
}

/// Whether the lower case of `s` is the keyword `word`.
pub open spec fn is_word(s: Seq<char>, word: Seq<char>) -> bool {
    &&& s.len() == word.len()
    &&& forall|i: int| 0 <= i < word.len() ==> folds_to(#[trigger] s[i], word[i])
}

/// Whether the lower case of `s` starts with the keyword `word`.
pub open spec fn starts_with_word(s: Seq<char>, word: Seq<char>) -> bool {
    &&& s.len() >= word.len()
    &&& forall|i: int| 0 <= i < word.len() ==> folds_to(#[trigger] s[i], word[i])
}

fn fold(c: char, l: char) -> (b: bool)
    ensures
        b == folds_to(c, l),
{
    c == l || ('A' <= c && c <= 'Z' && c as u32 + 32 == l as u32) || (c == '\u{212a}' && l == 'k')
}

/// Decides [`starts_with_word`].
pub fn has_word_prefix(s: &str, word: &str) -> (r: bool)
    ensures
        r == starts_with_word(s@, word@),
{
    let cs = chars_of(s);
    let ws = chars_of(word);
    if cs.len() < ws.len() {
        return false;
    }
    let mut i: usize = 0;
    while i < ws.len()
        invariant
            cs@ == s@,
            ws@ == word@,
            i <= ws@.len() <= cs@.len(),
            forall|j: int| 0 <= j < i ==> folds_to(#[trigger] s@[j], word@[j]),
        decreases ws@.len() - i,
    {
        if !fold(cs[i], ws[i]) {
            assert(!folds_to(s@[i as int], word@[i as int]));
            return false;
        }
        i = i + 1;
    }
    true
}

/// Decides [`is_word`].
pub fn matches_word(s: &str, word: &str) -> (r: bool)
    ensures
        r == is_word(s@, word@),
{
    s.unicode_len() == word.unicode_len() && has_word_prefix(s, word)
}

/// Whether `part` stands somewhere in `s`.
pub open spec fn occurs_in(part: Seq<char>, s: Seq<char>) -> bool {
    exists|i: int| #[trigger] occurs_at(part, s, i)
}

/// Whether `part` stands in `s` from index `i` on.
pub open spec fn occurs_at(part: Seq<char>, s: Seq<char>, i: int) -> bool {
    0 <= i && i + part.len() <= s.len() && s.subrange(i, i + part.len()) == part
}

/// Decides [`occurs_in`].
pub fn contains(s: &str, part: &str) -> (r: bool)
    ensures
        r == occurs_in(part@, s@),
{
    let n: usize = s.unicode_len();
    let m: usize = part.unicode_len();
    if m > n {
        return false;
    }
    let mut i: usize = 0;
    while i <= n - m
        invariant
            n == s@.len(),
            m == part@.len(),
            m <= n,
            i <= n - m + 1,
            forall|j: int| 0 <= j < i ==> !#[trigger] occurs_at(part@, s@, j),
        decreases n - m + 1 - i,
    {
        if same(s.substring_char(i, i + m), part) {
            assert(occurs_at(part@, s@, i as int));
            return true;
        }
        if i == n - m {
            return false;
        }
        i = i + 1;
    }
    false
}

// ---------------------------------------------------------------------------
// Splitting
// ---------------------------------------------------------------------------

/// Index of the first `c` in `s`, or the length of `s`.
pub open spec fn find(s: Seq<char>, c: char) -> int
    decreases s.len(),
{
    if s.len() == 0 || s[0] == c {
        0
    } else {
        1 + find(s.skip(1), c)
    }
}

/// One past the index of the last `c` in `s`, or 0.
pub open spec fn find_back(s: Seq<char>, c: char) -> int
    decreases s.len(),
{
    if s.len() == 0 || s.last() == c {
        s.len() as int
    } else {
        find_back(s.drop_last(), c)
    }
}

/// The pieces of `s` between its separators `c`.
pub open spec fn split_at_each(s: Seq<char>, c: char) -> Seq<Seq<char>>
    decreases s.len(),
{
    let i = find(s, c);
    if i < s.len() {
        proof {
            lemma_find(s, c);
        }
        seq![s.take(i)] + split_at_each(s.skip(i + 1), c)
    } else {
        seq![s]
    }
}

/// [`find`] gives the first occurrence.
pub proof fn lemma_find(s: Seq<char>, c: char)
    ensures
        0 <= find(s, c) <= s.len(),
        forall|j: int| 0 <= j < find(s, c) ==> s[j] != c,
        find(s, c) < s.len() ==> s[find(s, c)] == c,
    decreases s.len(),
{
    if s.len() > 0 && s[0] != c {
        lemma_find(s.skip(1), c);
        assert forall|j: int| 0 <= j < find(s, c) implies s[j] != c by {
            if j > 0 {
                assert(s.skip(1)[j - 1] == s[j]);
            }
        }
    }
}

/// The first occurrence of `c` is the only index with these properties.
pub proof fn lemma_find_is(s: Seq<char>, c: char, i: int)
    requires
        0 <= i <= s.len(),
        forall|j: int| 0 <= j < i ==> s[j] != c,
        i < s.len() ==> s[i] == c,
    ensures
        find(s, c) == i,
{
    lemma_find(s, c);
    let k = find(s, c);
    if k < i {
        assert(s[k] != c);
    }
}

/// [`find_back`] gives the last occurrence.
pub proof fn lemma_find_back(s: Seq<char>, c: char)
    ensures
        0 <= find_back(s, c) <= s.len(),
        forall|j: int| find_back(s, c) <= j < s.len() ==> s[j] != c,
        find_back(s, c) > 0 ==> s[find_back(s, c) - 1] == c,
    decreases s.len(),
{
    if s.len() > 0 && s.last() != c {
        let t = s.drop_last();
        lemma_find_back(t, c);
        assert forall|j: int| find_back(s, c) <= j < s.len() implies s[j] != c by {
            if j < t.len() {
                assert(t[j] != c);
            }
        }
    }
}

/// The last occurrence of `c` is the only index with these properties.
pub proof fn lemma_find_back_is(s: Seq<char>, c: char, i: int)
    requires
        0 <= i <= s.len(),
        forall|j: int| i <= j < s.len() ==> s[j] != c,
        i > 0 ==> s[i - 1] == c,
    ensures
        find_back(s, c) == i,
{
    lemma_find_back(s, c);
    let k = find_back(s, c);
    if k > i {
        assert(s[k - 1] != c);
    }
}

/// Index of the first `c` in `s`, or the number of characters of `s`.
pub fn index_of(s: &str, c: char) -> (r: usize)
    ensures
        r == find(s@, c),
        r <= s@.len(),
{
    let cs = chars_of(s);
    let mut i: usize = 0;
    while i < cs.len() && cs[i] != c
        invariant
            cs@ == s@,
            i <= cs@.len(),
            forall|j: int| 0 <= j < i ==> s@[j] != c,
        decreases cs@.len() - i,
    {
        i = i + 1;
    }
    proof {
        lemma_find_is(s@, c, i as int);
    }
    i
}

/// One past the index of the last `c` in `s`, or 0.
pub fn last_index_of(s: &str, c: char) -> (r: usize)
    ensures
        r == find_back(s@, c),
        r <= s@.len(),
{
    let cs = chars_of(s);
    let mut i: usize = cs.len();
    while i > 0 && cs[i - 1] != c
        invariant
            cs@ == s@,
            i <= cs@.len(),
            forall|j: int| i <= j < s@.len() ==> s@[j] != c,
        decreases i,
    {
        i = i - 1;
    }
    proof {
        lemma_find_back_is(s@, c, i as int);
    }
    i
}

/// The texts in `v`.
pub open spec fn texts(v: Seq<&str>) -> Seq<Seq<char>> {
    Seq::new(v.len(), |i: int| v[i]@)
}

/// The texts in `v`.
pub open spec fn strings(v: Seq<String>) -> Seq<Seq<char>> {
    Seq::new(v.len(), |i: int| v[i]@)
}

/// The content of a file that may be missing, as text.
pub open spec fn kept_text(kept: Option<&str>) -> Option<Seq<char>> {
    match kept {
        Some(text) => Some(text@),
        None => None,
    }
}

/// The pieces of `s` between its separators `c`.
pub fn split<'a>(s: &'a str, c: char) -> (v: Vec<&'a str>)
    ensures
        texts(v@) == split_at_each(s@, c),
{
    let mut v: Vec<&'a str> = Vec::new();
    let mut rest: &'a str = s;
    let mut more: bool = true;
    assert(texts(v@) + split_at_each(rest@, c) =~= split_at_each(s@, c));
    while more
        invariant
            more ==> texts(v@) + split_at_each(rest@, c) == split_at_each(s@, c),
            !more ==> texts(v@) == split_at_each(s@, c),
        decreases more as int, rest@.len(),
    {
        let n: usize = rest.unicode_len();
        let i: usize = index_of(rest, c);
        let ghost before = texts(v@);
        let ghost old_rest = rest@;
        proof {
            lemma_find(rest@, c);
        }
        if i < n {
            v.push(rest.substring_char(0, i));
            rest = rest.substring_char(i + 1, n);
            proof {
                assert(old_rest.subrange(0, i as int) =~= old_rest.take(i as int));
                assert(rest@ =~= old_rest.skip(i + 1));
                assert(texts(v@) =~= before + seq![old_rest.take(i as int)]);
                assert(texts(v@) + split_at_each(rest@, c) =~= before + (seq![
                    old_rest.take(i as int),
                ] + split_at_each(rest@, c)));
            }
        } else {
            v.push(rest);
            more = false;
            proof {
                assert(texts(v@) =~= before + seq![old_rest]);
            }
        }
    }
    v
}

/// The whitespace-separated words of `s`.
pub open spec fn words(s: Seq<char>) -> Seq<Seq<char>>
    decreases s.len(),
{
    let t = trim_front(s);
    if t.len() == 0 {
        Seq::empty()
    } else {
        proof {
            lemma_trim_front(s);
            lemma_word_end(t);
        }
        seq![t.take(word_end(t))] + words(t.skip(word_end(t)))
    }
}

/// Index of the first whitespace in `s`, or the length of `s`.
pub open spec fn word_end(s: Seq<char>) -> int
    decreases s.len(),
{
    if s.len() == 0 || is_space(s[0]) {
        0
    } else {
        1 + word_end(s.skip(1))
    }
}

/// [`trim_front`] drops the whitespace before the first other character.
pub proof fn lemma_trim_front(s: Seq<char>)
    ensures
        trim_front(s).len() <= s.len(),
        trim_front(s) == s.skip(s.len() - trim_front(s).len()),
        forall|j: int| 0 <= j < s.len() - trim_front(s).len() ==> is_space(#[trigger] s[j]),
        trim_front(s).len() > 0 ==> !is_space(trim_front(s)[0]),
    decreases s.len(),
{
    if s.len() > 0 && is_space(s[0]) {
        let t = s.skip(1);
        lemma_trim_front(t);
        assert(trim_front(s) =~= s.skip(s.len() - trim_front(s).len()));
        assert forall|j: int| 0 <= j < s.len() - trim_front(s).len() implies is_space(
            #[trigger] s[j],
        ) by {
            if j > 0 {
                assert(is_space(t[j - 1]));
            }
        }
    } else {
        assert(s.skip(0) =~= s);
    }
}

/// [`word_end`] gives the first whitespace.
pub proof fn lemma_word_end(s: Seq<char>)
    ensures
        0 <= word_end(s) <= s.len(),
        forall|j: int| 0 <= j < word_end(s) ==> !is_space(#[trigger] s[j]),
        word_end(s) < s.len() ==> is_space(s[word_end(s)]),
        s.len() > 0 && !is_space(s[0]) ==> word_end(s) > 0,
    decreases s.len(),
{
    if s.len() > 0 && !is_space(s[0]) {
        let t = s.skip(1);
        lemma_word_end(t);
        assert forall|j: int| 0 <= j < word_end(s) implies !is_space(#[trigger] s[j]) by {
            if j > 0 {
                assert(!is_space(t[j - 1]));
            }
        }
    }
}

/// The first whitespace is the only index with these properties.
pub proof fn lemma_word_end_is(s: Seq<char>, i: int)
    requires
        0 <= i <= s.len(),
        forall|j: int| 0 <= j < i ==> !is_space(#[trigger] s[j]),
        i < s.len() ==> is_space(s[i]),
    ensures
        word_end(s) == i,
{
    lemma_word_end(s);
    let k = word_end(s);
    if k < i {
        assert(!is_space(s[k]));
    }
    if i < k {
        assert(!is_space(s[i]));
    }
}

/// The first word of `s` and what follows it, if `s` has a word.
pub fn next_word<'a>(s: &'a str) -> (r: Option<(&'a str, &'a str)>)
    ensures
        match r {
            Some((word, rest)) => words(s@) == seq![word@] + words(rest@),
            None => words(s@) == Seq::<Seq<char>>::empty(),
        },
{
    let cs = chars_of(s);
    let n: usize = cs.len();
    let mut from: usize = 0;
    assert(s@.skip(0) =~= s@);
    while from < n && space(cs[from])
        invariant
            cs@ == s@,
            from <= n == cs@.len(),
            trim_front(s@) == trim_front(s@.skip(from as int)),
        decreases n - from,
    {
        proof {
            assert(s@.skip(from as int).skip(1) =~= s@.skip(from + 1));
        }
        from = from + 1;
    }
    let ghost t = s@.skip(from as int);
    assert(trim_front(s@) == t);
    if from == n {
        return None;
    }
    let mut to: usize = from;
    while to < n && !space(cs[to])
        invariant
            cs@ == s@,
            from <= to <= n == cs@.len(),
            t == s@.skip(from as int),
            forall|j: int| 0 <= j < to - from ==> !is_space(#[trigger] t[j]),
        decreases n - to,
    {
        to = to + 1;
    }
    proof {
        lemma_word_end_is(t, to - from);
        assert(s@.subrange(from as int, to as int) =~= t.take(to - from));
        assert(s@.subrange(to as int, n as int) =~= t.skip(to - from));
    }
    Some((s.substring_char(from, to), s.substring_char(to, n)))
}

// ---------------------------------------------------------------------------
// Joining
// ---------------------------------------------------------------------------

/// The texts in `parts`, one after the other, with `sep` between two of them.
pub open spec fn join(parts: Seq<Seq<char>>, sep: Seq<char>) -> Seq<char>
    decreases parts.len(),
{
    if parts.len() == 0 {
        Seq::empty()
    } else if parts.len() == 1 {
        parts[0]
    } else {
        join(parts.drop_last(), sep) + sep + parts.last()
    }
}

/// The texts in `v`, one after the other, with `sep` between two of them.
pub fn join_strings(v: &Vec<String>, sep: &str) -> (r: String)
    ensures
        r@ == join(strings(v@), sep@),
{
    let mut r: String = String::new();
    let mut i: usize = 0;
    let ghost parts = strings(v@);
    while i < v.len()
        invariant
            parts == strings(v@),
            i <= v@.len(),
            r@ == join(parts.take(i as int), sep@),
        decreases v@.len() - i,
    {
        proof {
            assert(parts.take(i + 1).drop_last() =~= parts.take(i as int));
        }
        if i > 0 {
            r.append(sep);
        }
        r.append(v[i].as_str());
        proof {
            if i == 0 {
                assert(r@ =~= parts[0]);
            }
        }
        i = i + 1;
    }
    assert(parts.take(i as int) =~= parts);
    r
}

// ---------------------------------------------------------------------------
// How splitting, joining and trimming meet
// ---------------------------------------------------------------------------

/// Splitting distributes over a separator.
pub proof fn lemma_split_append(a: Seq<char>, b: Seq<char>, c: char)
    ensures
        split_at_each(a + seq![c] + b, c) == split_at_each(a, c) + split_at_each(b, c),
    decreases a.len(),
{
    let s = a + seq![c] + b;
    lemma_find(a, c);
    let i = find(a, c);
    lemma_find_is(s, c, i);
    if i < a.len() {
        assert(s.take(i) =~= a.take(i));
        assert(s.skip(i + 1) =~= a.skip(i + 1) + seq![c] + b);
        lemma_split_append(a.skip(i + 1), b, c);
        assert(split_at_each(s, c) =~= split_at_each(a, c) + split_at_each(b, c));
    } else {
        assert(s.take(i) =~= a);
        assert(s.skip(i + 1) =~= b);
    }
}

/// Splitting takes apart what joining has put together, where no part holds the separator.
pub proof fn lemma_split_join(parts: Seq<Seq<char>>, c: char)
    requires
        parts.len() > 0,
        forall|i: int, j: int|
            0 <= i < parts.len() && 0 <= j < parts[i].len() ==> #[trigger] parts[i][j] != c,
    ensures
        split_at_each(join(parts, seq![c]), c) == parts,
    decreases parts.len(),
{
    let last = parts.last();
    lemma_find_is(last, c, last.len() as int);
    if parts.len() == 1 {
        assert(parts =~= seq![last]);
    } else {
        let front = parts.drop_last();
        assert forall|i: int, j: int| 0 <= i < front.len() && 0 <= j < front[i].len() implies
            #[trigger] front[i][j] != c by {
            assert(parts[i][j] != c);
        }
        lemma_split_join(front, c);
        lemma_split_append(join(front, seq![c]), last, c);
        assert(parts =~= front + seq![last]);
    }
}

/// Trimming leaves a text alone that neither starts nor ends with whitespace.
pub proof fn lemma_trimmed_is_same(s: Seq<char>)
    requires
        s.len() > 0 ==> !is_space(s[0]) && !is_space(s.last()),
    ensures
        trimmed(s) == s,
{
}

/// What trimming leaves neither starts nor ends with whitespace.
pub proof fn lemma_trimmed_edges(s: Seq<char>)
    ensures
        trimmed(s).len() > 0 ==> !is_space(trimmed(s)[0]) && !is_space(trimmed(s).last()),
        trimmed(s).len() <= s.len(),
        trimmed(trimmed(s)) == trimmed(s),
{
    let t = trim_front(s);
    lemma_trim_front(s);
    lemma_trim_back(t);
    if trimmed(s).len() > 0 {
        assert(trimmed(s)[0] == t[0]);
    }
}

/// [`trim_back`] drops the whitespace behind the last other character.
pub proof fn lemma_trim_back(s: Seq<char>)
    ensures
        trim_back(s).len() <= s.len(),
        trim_back(s) == s.take(trim_back(s).len() as int),
        trim_back(s).len() > 0 ==> !is_space(trim_back(s).last()),
    decreases s.len(),
{
    if s.len() > 0 && is_space(s.last()) {
        lemma_trim_back(s.drop_last());
        assert(trim_back(s) =~= s.take(trim_back(s).len() as int));
    } else {
        assert(s.take(s.len() as int) =~= s);
    }
}

/// The words of a text that starts with a word and a space: that word, and those behind it.
pub proof fn lemma_words_of_word(word: Seq<char>, sep: char, rest: Seq<char>)
    requires
        word.len() > 0,
        forall|i: int| 0 <= i < word.len() ==> !is_space(#[trigger] word[i]),
        is_space(sep),
    ensures
        words(word + seq![sep] + rest) == seq![word] + words(rest),
{
    let s = word + seq![sep] + rest;
    assert(!is_space(word[0]));
    assert(s[0] == word[0]);
    assert(trim_front(s) == s);
    assert forall|j: int| 0 <= j < word.len() implies !is_space(#[trigger] s[j]) by {
        assert(s[j] == word[j]);
    }
    lemma_word_end_is(s, word.len() as int);
    assert(s.take(word.len() as int) =~= word);
    let tail = s.skip(word.len() as int);
    assert(tail =~= seq![sep] + rest);
    assert(tail.skip(1) =~= rest);
    assert(trim_front(tail) == trim_front(rest));
    assert(words(tail) == words(rest));
}

// ---------------------------------------------------------------------------
// What holds of texts
// ---------------------------------------------------------------------------

/// Whether `s` holds nothing but whitespace.
pub open spec fn is_blank(s: Seq<char>) -> bool {
    forall|i: int| 0 <= i < s.len() ==> is_space(#[trigger] s[i])
}

/// Whitespace is what Unicode lists as such: tab to carriage return, the space, and these.
pub proof fn law_whitespace(c: char)
    ensures
        is_space(c) <==> {
            ||| 9 <= c as int <= 13
            ||| c as int == 32
            ||| c as int == 133
            ||| c as int == 160
            ||| c as int == 5760
            ||| 8192 <= c as int <= 8202
            ||| c as int == 8232
            ||| c as int == 8233
            ||| c as int == 8239
            ||| c as int == 8287
            ||| c as int == 12288
        },
{
}

/// Trimming takes away whitespace at both ends and nothing else.
pub proof fn law_trimming(before: Seq<char>, middle: Seq<char>, after: Seq<char>)
    requires
        is_blank(before),
        is_blank(after),
        middle.len() > 0 ==> !is_space(middle[0]) && !is_space(middle.last()),
    ensures
        trimmed(before + middle + after) == middle,
{
    let rest = middle + after;
    assert(before + middle + after =~= before + rest);
    lemma_trim_front_pad(before, rest);
    if middle.len() > 0 {
        assert(rest[0] == middle[0]);
        assert(trim_front(rest) == rest);
        lemma_trim_back_pad(middle, after);
    } else {
        assert(rest =~= after);
        assert(after + Seq::<char>::empty() =~= after);
        lemma_trim_front_pad(after, Seq::empty());
    }
}

/// Whitespace in front of a text does not matter to [`trim_front`].
pub proof fn lemma_trim_front_pad(pad: Seq<char>, s: Seq<char>)
    requires
        is_blank(pad),
    ensures
        trim_front(pad + s) == trim_front(s),
    decreases pad.len(),
{
    if pad.len() > 0 {
        let t = pad.skip(1);
        assert(is_space(pad[0]));
        assert forall|i: int| 0 <= i < t.len() implies is_space(#[trigger] t[i]) by {
            assert(is_space(pad[i + 1]));
        }
        assert((pad + s)[0] == pad[0]);
        assert((pad + s).skip(1) =~= t + s);
        lemma_trim_front_pad(t, s);
    } else {
        assert(pad + s =~= s);
    }
}

proof fn lemma_trim_back_pad(s: Seq<char>, pad: Seq<char>)
    requires
        is_blank(pad),
        s.len() > 0,
        !is_space(s.last()),
    ensures
        trim_back(s + pad) == s,
    decreases pad.len(),
{
    if pad.len() > 0 {
        let t = pad.drop_last();
        assert(is_space(pad[pad.len() - 1]));
        assert forall|i: int| 0 <= i < t.len() implies is_space(#[trigger] t[i]) by {
            assert(is_space(pad[i]));
        }
        assert((s + pad).last() == pad.last());
        assert((s + pad).drop_last() =~= s + t);
        lemma_trim_back_pad(s, t);
    } else {
        assert(s + pad =~= s);
    }
}

/// A keyword is met by its own letters in either case, and by the Kelvin sign for a `k`.
pub proof fn law_keywords_ignore_case(s: Seq<char>, word: Seq<char>)
    ensures
        is_word(s, word) <==> s.len() == word.len() && forall|i: int|
            0 <= i < word.len() ==> {
                ||| (#[trigger] s[i]) as int == word[i] as int
                ||| 65 <= s[i] as int <= 90 && s[i] as int + 32 == word[i] as int
                ||| s[i] as int == 0x212a && word[i] as int == 107
            },
{
    if is_word(s, word) {
        assert forall|i: int| 0 <= i < word.len() implies {
            ||| (#[trigger] s[i]) as int == word[i] as int
            ||| 65 <= s[i] as int <= 90 && s[i] as int + 32 == word[i] as int
            ||| s[i] as int == 0x212a && word[i] as int == 107
        } by {
            assert(folds_to(s[i], word[i]));
        }
    } else if s.len() == word.len() {
        let i = choose|i: int| 0 <= i < word.len() && !folds_to(#[trigger] s[i], word[i]);
        assert(!folds_to(s[i], word[i]));
    }
}

/// A text starts with a keyword if what stands at its start is that keyword.
pub proof fn law_keyword_in_front(s: Seq<char>, word: Seq<char>)
    ensures
        starts_with_word(s, word) <==> s.len() >= word.len() && is_word(
            s.take(word.len() as int),
            word,
        ),
{
    if s.len() >= word.len() {
        let head = s.take(word.len() as int);
        assert forall|i: int| 0 <= i < word.len() implies head[i] == s[i] by {}
        if is_word(head, word) {
            assert forall|i: int| 0 <= i < word.len() implies folds_to(#[trigger] s[i], word[i]) by {
                assert(folds_to(head[i], word[i]));
            }
        }
    }
}

/// A part occurs in a text if the text is that part with something before and behind it.
pub proof fn law_occurrence(part: Seq<char>, before: Seq<char>, after: Seq<char>, s: Seq<char>)
    ensures
        occurs_in(part, before + part + after),
        occurs_in(part, s) ==> exists|a: Seq<char>, b: Seq<char>| s == #[trigger] (a + part + b),
{
    let whole = before + part + after;
    assert(whole.subrange(before.len() as int, before.len() as int + part.len()) =~= part);
    assert(occurs_at(part, whole, before.len() as int));
    if occurs_in(part, s) {
        let i = choose|i: int| #[trigger] occurs_at(part, s, i);
        let a = s.take(i);
        let b = s.skip(i + part.len());
        assert(s =~= a + part + b);
    }
}

/// Splitting gives the text back when its pieces are joined, and no piece holds the separator.
pub proof fn law_split_comes_together(s: Seq<char>, c: char)
    ensures
        split_at_each(s, c).len() > 0,
        join(split_at_each(s, c), seq![c]) == s,
        forall|i: int, j: int|
            0 <= i < split_at_each(s, c).len() && 0 <= j < split_at_each(s, c)[i].len()
                ==> #[trigger] split_at_each(s, c)[i][j] != c,
    decreases s.len(),
{
    lemma_find(s, c);
    let i = find(s, c);
    let pieces = split_at_each(s, c);
    if i < s.len() {
        let rest = s.skip(i + 1);
        law_split_comes_together(rest, c);
        let tail = split_at_each(rest, c);
        law_joining(seq![s.take(i)], tail, seq![c]);
        assert(s =~= s.take(i) + seq![c] + rest);
        assert forall|k: int, j: int| 0 <= k < pieces.len() && 0 <= j < pieces[k].len() implies
            #[trigger] pieces[k][j] != c by {
            if k > 0 {
                assert(tail[k - 1][j] != c);
            }
        }
    } else {
        assert(pieces =~= seq![s]);
    }
}

/// Joining puts the separator between any two neighbours: between two lists of texts too.
pub proof fn law_joining(a: Seq<Seq<char>>, b: Seq<Seq<char>>, sep: Seq<char>)
    ensures
        join(Seq::empty(), sep) == Seq::<char>::empty(),
        a.len() == 1 ==> join(a, sep) == a[0],
        a.len() > 0 && b.len() > 0 ==> join(a + b, sep) == join(a, sep) + sep + join(b, sep),
    decreases b.len(),
{
    if a.len() > 0 && b.len() > 0 {
        let front = b.drop_last();
        assert((a + b).drop_last() =~= a + front);
        assert((a + b).last() == b.last());
        if front.len() > 0 {
            law_joining(a, front, sep);
            assert(join(a + b, sep) =~= join(a, sep) + sep + join(b, sep));
        } else {
            assert(a + front =~= a);
            assert(b =~= seq![b[0]]);
        }
    }
}

/// Words are what whitespace separates, in their order: whitespace in front does not count, a word
/// ends where whitespace follows or the text ends, and a blank text has none.
pub proof fn law_words(pad: Seq<char>, word: Seq<char>, sep: char, rest: Seq<char>)
    requires
        is_blank(pad),
        word.len() > 0,
        forall|i: int| 0 <= i < word.len() ==> !is_space(#[trigger] word[i]),
        is_space(sep),
    ensures
        words(pad) == Seq::<Seq<char>>::empty(),
        words(pad + word) == seq![word],
        words(pad + (word + seq![sep] + rest)) == seq![word] + words(rest),
{
    lemma_trim_front_pad(pad, Seq::empty());
    assert(pad + Seq::<char>::empty() =~= pad);
    lemma_trim_front_pad(pad, word);
    lemma_word_end_is(word, word.len() as int);
    assert(!is_space(word[0]));
    assert(trim_front(word) == word);
    assert(word.take(word.len() as int) =~= word);
    assert(word.skip(word.len() as int) =~= Seq::<char>::empty());
    assert(words(Seq::<char>::empty()) =~= Seq::<Seq<char>>::empty());
    assert(words(pad + word) =~= seq![word]);
    let tail = word + seq![sep] + rest;
    lemma_trim_front_pad(pad, tail);
    assert(tail[0] == word[0]);
    assert(trim_front(tail) == tail);
    assert(words(pad + tail) == words(tail));
    lemma_words_of_word(word, sep, rest);
}

/// The texts of a list of strings are those of its entries, in their order.
pub proof fn law_texts_of_a_list(v: Seq<String>, w: Seq<&str>)
    ensures
        strings(v).len() == v.len(),
        forall|i: int| 0 <= i < v.len() ==> #[trigger] strings(v)[i] == v[i]@,
        texts(w).len() == w.len(),
        forall|i: int| 0 <= i < w.len() ==> #[trigger] texts(w)[i] == w[i]@,
{
}

/// Trimming leaves nothing of a text if and only if it is blank.
pub proof fn lemma_blank_is_trimmed_away(s: Seq<char>)
    ensures
        is_blank(s) <==> trimmed(s).len() == 0,
{
    if is_blank(s) {
        law_trimming(s, Seq::empty(), Seq::empty());
        assert(s + Seq::<char>::empty() + Seq::<char>::empty() =~= s);
    } else {
        let i = choose|i: int| 0 <= i < s.len() && !is_space(#[trigger] s[i]);
        lemma_trim_front(s);
        let t = trim_front(s);
        assert(t.len() > 0) by {
            if t.len() == 0 {
                assert(is_space(s[i]));
            }
        }
        lemma_trim_back_keeps(t);
    }
}

proof fn lemma_trim_back_keeps(s: Seq<char>)
    requires
        s.len() > 0,
        !is_space(s[0]),
    ensures
        trim_back(s).len() > 0,
    decreases s.len(),
{
    if is_space(s.last()) {
        assert(s.len() > 1);
        lemma_trim_back_keeps(s.drop_last());
    }
}

}
