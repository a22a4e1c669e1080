//! Text as sequences of characters: the splitting, trimming, searching and
//! number formatting that the rest of the library is built on.

use vstd::prelude::*;
use vstd::string::*;

verus! {

// ---------------------------------------------------------------------------
// Trusted: string functions of std
// ---------------------------------------------------------------------------

/// `String::push` appends one character to the end of the string.
pub assume_specification[ String::push ](s: &mut String, ch: char)
    ensures
        final(s)@ == old(s)@.push(ch),
;

/// Whether every character is one of ASCII.
pub open spec fn is_ascii_text(s: Seq<char>) -> bool {
    forall|i: int| 0 <= i < s.len() ==> #[trigger] s[i] <= '\u{7f}'
}

/// The lower case of a character of ASCII.
pub open spec fn ascii_lower(c: char) -> char {
    if 'A' <= c <= 'Z' {
        (c as u32 + 32) as char
    } else {
        c
    }
}

/// The upper case of a character of ASCII.
pub open spec fn ascii_upper(c: char) -> char {
    if 'a' <= c <= 'z' {
        (c as u32 - 32) as char
    } else {
        c
    }
}

/// What `str::to_lowercase` makes of a text that goes beyond ASCII.
pub uninterp spec fn unicode_lowercase(s: Seq<char>) -> Seq<char>;

/// A text in lower case.
pub open spec fn lowercase_text(s: Seq<char>) -> Seq<char> {
    if is_ascii_text(s) {
        s.map_values(|c: char| ascii_lower(c))
    } else {
        unicode_lowercase(s)
    }
}

/// `str::to_lowercase`: in ASCII the letters A to Z become a to z, and all else
/// stays. What becomes of other texts is a function of the text; which, stays
/// unsaid.
#[verifier::external_body]
pub(crate) fn lowercase(s: &str) -> (r: String)
    ensures
        r@ == lowercase_text(s@),
        !is_ascii_text(s@) ==> r@ == unicode_lowercase(s@),
{
    s.to_lowercase()
}

/// What `str::to_uppercase` makes of a text that goes beyond ASCII.
pub uninterp spec fn unicode_uppercase(s: Seq<char>) -> Seq<char>;

/// A text in upper case.
pub open spec fn uppercase_text(s: Seq<char>) -> Seq<char> {
    if is_ascii_text(s) {
        s.map_values(|c: char| ascii_upper(c))
    } else {
        unicode_uppercase(s)
    }
}

/// `str::to_uppercase`: in ASCII the letters a to z become A to Z, and all else
/// stays. What becomes of other texts is a function of the text; which, stays
/// unsaid.
#[verifier::external_body]
pub(crate) fn uppercase(s: &str) -> (r: String)
    ensures
        r@ == uppercase_text(s@),
        !is_ascii_text(s@) ==> r@ == unicode_uppercase(s@),
{
    s.to_uppercase()
}

/// What `String::from_utf8_lossy` reads from bytes that are not UTF-8.
pub uninterp spec fn repaired_text(bytes: Seq<u8>) -> Seq<char>;

/// The text that bytes are read as: what they stand for in UTF-8, or what is
/// left of it where they are not valid.
pub open spec fn lossy_text(bytes: Seq<u8>) -> Seq<char> {
    if vstd::utf8::valid_utf8(bytes) {
        vstd::utf8::decode_utf8(bytes)
    } else {
        repaired_text(bytes)
    }
}

/// `String::from_utf8_lossy`: bytes that are valid UTF-8 are decoded as they
/// are. In any other bytes the invalid parts are replaced, which depends on the
/// bytes alone; with what, and how many replacements there are, stays unsaid.
#[verifier::external_body]
pub(crate) fn from_utf8_lossy(bytes: &[u8]) -> (r: String)
    ensures
        r@ == lossy_text(bytes@),
        !vstd::utf8::valid_utf8(bytes@) ==> r@ == repaired_text(bytes@),
{
    String::from_utf8_lossy(bytes).into_owned()
}

// ---------------------------------------------------------------------------
// Characters
// ---------------------------------------------------------------------------

/// The characters with the Unicode property White_Space.
pub open spec fn is_white(c: char) -> bool {
    ||| '\u{9}' <= c <= '\u{d}'
    ||| c == ' '
    ||| c == '\u{85}'
    ||| c == '\u{a0}'
    ||| c == '\u{1680}'
    ||| '\u{2000}' <= c <= '\u{200a}'
    ||| c == '\u{2028}'
    ||| c == '\u{2029}'
    ||| c == '\u{202f}'
    ||| c == '\u{205f}'
    ||| c == '\u{3000}'
}

/// Whether `c` is white space.
pub fn white(c: char) -> (r: bool)
    ensures
        r == is_white(c),
{
    ('\u{9}' <= c && c <= '\u{d}') || c == ' ' || c == '\u{85}' || c == '\u{a0}' || c == '\u{1680}'
        || ('\u{2000}' <= c && c <= '\u{200a}') || c == '\u{2028}' || c == '\u{2029}' || c
        == '\u{202f}' || c == '\u{205f}' || c == '\u{3000}'
}

/// The control characters: the C0 range, delete, and the C1 range.
pub open spec fn is_control(c: char) -> bool {
    c <= '\u{1f}' || '\u{7f}' <= c <= '\u{9f}'
}

/// Whether `c` is a decimal digit of ASCII.
pub open spec fn is_digit(c: char) -> bool {
    '0' <= c <= '9'
}

// ---------------------------------------------------------------------------
// Strings and their characters
// ---------------------------------------------------------------------------

/// The texts that a list of strings holds.
pub open spec fn texts(v: Seq<String>) -> Seq<Seq<char>> {
    v.map_values(|s: String| s@)
}

/// The text that an optional string holds.
pub open spec fn text_of(s: Option<String>) -> Option<Seq<char>> {
    match s {
        Some(s) => Some(s@),
        None => None,
    }
}

/// The text of an optional string, or the empty text.
pub open spec fn text_or_empty(s: Option<String>) -> Seq<char> {
    match s {
        Some(s) => s@,
        None => Seq::empty(),
    }
}

/// The characters of a string, in order.
pub fn chars_of(s: &str) -> (v: Vec<char>)
    ensures
        v@ == s@,
{
    let mut v: Vec<char> = Vec::new();
    for c in it: s.chars()
        invariant
            v@ == it.seq().take(it.index()),
            it.seq() == s@,
    {
        v.push(c);
    }
    v
}

/// The string made of the characters of `v` from `from` up to `to`.
pub fn text_between(v: &Vec<char>, from: usize, to: usize) -> (s: String)
    requires
        from <= to <= v@.len(),
    ensures
        s@ == v@.subrange(from as int, to as int),
{
    let mut s = String::new();
    let mut i: usize = from;
    while i < to
        invariant
            from <= i <= to <= v@.len(),
            s@ == v@.subrange(from as int, i as int),
        decreases to - i,
    {
        s.push(v[i]);
        i += 1;
    }
    s
}

/// Whether two strings hold the same text.
pub fn same_text(a: &str, b: &str) -> (r: bool)
    ensures
        r == (a@ == b@),
{
    a.to_owned() == b.to_owned()
}

/// A copy of an optional string.
pub fn copy_text(s: &Option<String>) -> (r: Option<String>)
    ensures
        r == *s,
{
    match s {
        Some(s) => Some(s.clone()),
        None => None,
    }
}

/// `a` followed by `b`.
pub fn cat2(a: &str, b: &str) -> (r: String)
    ensures
        r@ == a@ + b@,
{
    a.to_owned().concat(b)
}

/// `a`, `b` and `c`, one after the other.
pub fn cat3(a: &str, b: &str, c: &str) -> (r: String)
    ensures
        r@ == a@ + b@ + c@,
{
    a.to_owned().concat(b).concat(c)
}

/// `a`, `b`, `c` and `d`, one after the other.
pub fn cat4(a: &str, b: &str, c: &str, d: &str) -> (r: String)
    ensures
        r@ == a@ + b@ + c@ + d@,
{
    a.to_owned().concat(b).concat(c).concat(d)
}

// ---------------------------------------------------------------------------
// Prefixes
// ---------------------------------------------------------------------------

/// Whether `s` begins with `p`.
pub open spec fn begins_with(s: Seq<char>, p: Seq<char>) -> bool {
    p.len() <= s.len() && s.take(p.len() as int) == p
}

/// Whether `p` stands in `s` at position `i`.
pub open spec fn stands_at(s: Seq<char>, i: int, p: Seq<char>) -> bool {
    0 <= i && i + p.len() <= s.len() && s.subrange(i, i + p.len()) == p
}

/// Whether `p` stands in `v` at position `i`.
pub fn found_at(v: &Vec<char>, i: usize, p: &Vec<char>) -> (r: bool)
    ensures
        r == stands_at(v@, i as int, p@),
{
    if i > v.len() || p.len() > v.len() - i {
        return false;
    }
    let mut k: usize = 0;
    while k < p.len()
        invariant
            k <= p@.len(),
            i + p@.len() <= v@.len() <= usize::MAX,
            forall|j: int| 0 <= j < k ==> v@[i + j] == p@[j],
        decreases p@.len() - k,
    {
        if v[i + k] != p[k] {
            assert(v@.subrange(i as int, i + p@.len())[k as int] != p@[k as int]);
            return false;
        }
        k += 1;
    }
    assert(v@.subrange(i as int, i + p@.len()) =~= p@);
    true
}

/// The rest of `s` after the prefix `p`, if `s` begins with `p`.
pub fn strip_prefix(s: &str, p: &str) -> (r: Option<String>)
    ensures
        match r {
            Some(rest) => begins_with(s@, p@) && rest@ == s@.skip(p@.len() as int),
            None => !begins_with(s@, p@),
        },
{
    let v = chars_of(s);
    let q = chars_of(p);
    if found_at(&v, 0, &q) {
        assert(v@.subrange(0, q@.len() as int) =~= s@.take(p@.len() as int));
        let rest = text_between(&v, q.len(), v.len());
        assert(rest@ =~= s@.skip(p@.len() as int));
        Some(rest)
    } else {
        proof {
            if begins_with(s@, p@) {
                assert(v@.subrange(0, q@.len() as int) =~= s@.take(p@.len() as int));
            }
        }
        None
    }
}

/// The length of the longest prefix of `s` without a character that `stop` accepts.
pub open spec fn prefix_len(s: Seq<char>, stop: spec_fn(char) -> bool) -> nat
    decreases s.len(),
{
    if s.len() == 0 || stop(s[0]) {
        0
    } else {
        1 + prefix_len(s.drop_first(), stop)
    }
}

/// The number of characters of `s` before the first `c`, or of all of `s`.
pub open spec fn len_before(s: Seq<char>, c: char) -> nat {
    prefix_len(s, is_char(c))
}

/// The test for the one character `c`.
pub open spec fn is_char(c: char) -> spec_fn(char) -> bool {
    |x: char| x == c
}

/// A part of `s` without `c`, which ends before a `c` or at the end, is the whole part before `c`.
pub proof fn lemma_len_before(s: Seq<char>, c: char, n: int)
    requires
        0 <= n <= s.len(),
        forall|j: int| 0 <= j < n ==> #[trigger] s[j] != c,
        n < s.len() ==> s[n] == c,
    ensures
        len_before(s, c) == n,
{
    lemma_prefix_len(s, is_char(c), n);
}

/// A prefix without a stop, which ends at a stop or at the end, is the longest one.
pub proof fn lemma_prefix_len(s: Seq<char>, stop: spec_fn(char) -> bool, n: int)
    requires
        0 <= n <= s.len(),
        forall|j: int| 0 <= j < n ==> !stop(#[trigger] s[j]),
        n < s.len() ==> stop(s[n]),
    ensures
        prefix_len(s, stop) == n,
    decreases s.len(),
{
    if n > 0 {
        assert forall|j: int| 0 <= j < n - 1 implies !stop(#[trigger] s.drop_first()[j]) by {
            assert(s.drop_first()[j] == s[j + 1]);
        }
        lemma_prefix_len(s.drop_first(), stop, n - 1);
    }
}

/// The longest prefix without a stop holds none, and ends at a stop or at the end.
pub proof fn lemma_prefix_len_is(s: Seq<char>, stop: spec_fn(char) -> bool)
    ensures
        prefix_len(s, stop) <= s.len(),
        forall|j: int| 0 <= j < prefix_len(s, stop) ==> !stop(#[trigger] s[j]),
        prefix_len(s, stop) < s.len() ==> stop(s[prefix_len(s, stop) as int]),
    decreases s.len(),
{
    if s.len() > 0 && !stop(s[0]) {
        let t = s.drop_first();
        lemma_prefix_len_is(t, stop);
        assert forall|j: int| 0 <= j < prefix_len(s, stop) implies !stop(#[trigger] s[j]) by {
            if j > 0 {
                assert(t[j - 1] == s[j]);
            }
        }
    }
}

// ---------------------------------------------------------------------------
// Splitting
// ---------------------------------------------------------------------------

/// The maximal runs of characters that are not white space.
pub open spec fn words(s: Seq<char>) -> Seq<Seq<char>>
    decreases s.len(),
{
    if s.len() == 0 {
        Seq::empty()
    } else if is_white(s[0]) {
        words(s.drop_first())
    } else {
        let n = prefix_len(s, |c: char| is_white(c));
        if 0 < n <= s.len() {
            seq![s.take(n as int)] + words(s.skip(n as int))
        } else {
            Seq::empty()
        }
    }
}

/// The words of a text, as `str::split_whitespace` finds them.
pub fn split_whitespace(s: &str) -> (out: Vec<String>)
    ensures
        texts(out@) == words(s@),
{
    let v = chars_of(s);
    let mut out: Vec<String> = Vec::new();
    let mut i: usize = 0;
    let ghost stop = |c: char| is_white(c);
    assert(v@.skip(0) =~= v@);
    assert(texts(out@) + words(v@) =~= words(v@));
    while i < v.len()
        invariant
            i <= v@.len(),
            stop == (|c: char| is_white(c)),
            texts(out@) + words(v@.skip(i as int)) == words(v@),
        decreases v@.len() - i,
    {
        let ghost rest = v@.skip(i as int);
        if white(v[i]) {
            assert(rest.drop_first() =~= v@.skip(i + 1));
            i += 1;
        } else {
            let start: usize = i;
            while i < v.len() && !white(v[i])
                invariant
                    start <= i <= v@.len(),
                    forall|j: int| start <= j < i ==> !is_white(#[trigger] v@[j]),
                decreases v@.len() - i,
            {
                i += 1;
            }
            let word = text_between(&v, start, i);
            proof {
                let n = i - start;
                assert forall|j: int| 0 <= j < n implies !stop(#[trigger] rest[j]) by {
                    assert(rest[j] == v@[start + j]);
                }
                lemma_prefix_len(rest, stop, n);
                assert(rest.take(n) =~= word@);
                assert(rest.skip(n) =~= v@.skip(i as int));
                assert(words(rest) == seq![word@] + words(v@.skip(i as int)));
                assert(texts(out@.push(word)) =~= texts(out@).push(word@));
                assert(texts(out@) + (seq![word@] + words(v@.skip(i as int))) =~= texts(
                    out@.push(word),
                ) + words(v@.skip(i as int)));
            }
            out.push(word);
        }
    }
    assert(v@.skip(i as int).len() == 0);
    assert(texts(out@) + Seq::<Seq<char>>::empty() =~= texts(out@));
    out
}

/// Whether `s` is a single word.
pub open spec fn is_word(s: Seq<char>) -> bool {
    s.len() > 0 && forall|i: int| 0 <= i < s.len() ==> !is_white(#[trigger] s[i])
}

/// What is found as words are words.
pub proof fn lemma_words_are_words(s: Seq<char>)
    ensures
        forall|i: int| 0 <= i < words(s).len() ==> is_word(#[trigger] words(s)[i]),
    decreases s.len(),
{
    let stop = |c: char| is_white(c);
    if s.len() == 0 {
        assert(words(s).len() == 0);
    } else if is_white(s[0]) {
        lemma_words_are_words(s.drop_first());
        assert(words(s) == words(s.drop_first()));
    } else {
        let n = prefix_len(s, stop);
        lemma_prefix_len_is(s, stop);
        assert(0 < n <= s.len());
        if 0 < n <= s.len() {
            let first = s.take(n as int);
            let rest = words(s.skip(n as int));
            lemma_words_are_words(s.skip(n as int));
            assert forall|i: int| 0 <= i < first.len() implies !is_white(#[trigger] first[i]) by {
                assert(!stop(s[i]));
            }
            assert(is_word(first));
            assert(words(s) =~= seq![first] + rest);
            assert forall|i: int| 0 <= i < words(s).len() implies is_word(#[trigger] words(s)[i]) by {
                if i > 0 {
                    assert(words(s)[i] == rest[i - 1]);
                } else {
                    assert(words(s)[i] == first);
                }
            }
        }
    }
}

/// A word, followed by white space or by nothing, is the first word.
pub proof fn lemma_first_word(word: Seq<char>, rest: Seq<char>)
    requires
        is_word(word),
        rest.len() > 0 ==> is_white(rest[0]),
    ensures
        words(word + rest) == seq![word] + words(rest),
{
    let s = word + rest;
    let stop = |c: char| is_white(c);
    let n = word.len() as int;
    assert(s[0] == word[0] && !is_white(word[0]));
    assert forall|j: int| 0 <= j < n implies !stop(#[trigger] s[j]) by {
        assert(s[j] == word[j] && !is_white(word[j]));
    }
    if n < s.len() {
        assert(s[n] == rest[0]);
    }
    lemma_prefix_len(s, stop, n);
    assert(s.take(n) =~= word);
    assert(s.skip(n) =~= rest);
}

/// White space before words does not count.
pub proof fn lemma_leading_white(c: char, rest: Seq<char>)
    requires
        is_white(c),
    ensures
        words(seq![c] + rest) == words(rest),
{
    assert((seq![c] + rest).drop_first() =~= rest);
}

/// White space behind words does not count.
pub proof fn lemma_trailing_white(s: Seq<char>, c: char)
    requires
        is_white(c),
    ensures
        words(s.push(c)) == words(s),
    decreases s.len(),
{
    let t = s.push(c);
    let stop = |c: char| is_white(c);
    if s.len() == 0 {
        assert(t.drop_first() =~= s);
    } else if is_white(s[0]) {
        assert(t.drop_first() =~= s.drop_first().push(c));
        lemma_trailing_white(s.drop_first(), c);
    } else {
        lemma_prefix_len_is(s, stop);
        let n = prefix_len(s, stop) as int;
        assert forall|j: int| 0 <= j < n implies !stop(#[trigger] t[j]) by {
            assert(t[j] == s[j] && !stop(s[j]));
        }
        assert(stop(t[n])) by {
            if n < s.len() {
                assert(t[n] == s[n]);
            } else {
                assert(t[n] == c);
            }
        }
        lemma_prefix_len(t, stop, n);
        assert(n > 0) by {
            assert(!stop(s[0]));
            if n == 0 {
                assert(stop(s[0]));
            }
        }
        assert(t.take(n) =~= s.take(n));
        assert(t.skip(n) =~= s.skip(n).push(c));
        lemma_trailing_white(s.skip(n), c);
    }
}

/// The text without white space at either end.
pub open spec fn trimmed(s: Seq<char>) -> Seq<char>
    decreases s.len(),
{
    if s.len() > 0 && is_white(s[0]) {
        trimmed(s.drop_first())
    } else if s.len() > 0 && is_white(s.last()) {
        trimmed(s.drop_last())
    } else {
        s
    }
}

/// The text without white space at either end, as `str::trim` gives it.
pub fn trim(s: &str) -> (r: String)
    ensures
        r@ == trimmed(s@),
{
    let v = chars_of(s);
    let mut i: usize = 0;
    let mut j: usize = v.len();
    assert(v@.subrange(0, j as int) =~= v@);
    while i < j && white(v[i])
        invariant
            i <= j == v@.len(),
            trimmed(v@.subrange(i as int, j as int)) == trimmed(v@),
        decreases j - i,
    {
        assert(v@.subrange(i as int, j as int).drop_first() =~= v@.subrange(i + 1, j as int));
        i += 1;
    }
    while i < j && white(v[j - 1])
        invariant
            i <= j <= v@.len(),
            i < j ==> !is_white(v@[i as int]),
            trimmed(v@.subrange(i as int, j as int)) == trimmed(v@),
        decreases j - i,
    {
        assert(v@.subrange(i as int, j as int).drop_last() =~= v@.subrange(i as int, j - 1));
        j -= 1;
    }
    text_between(&v, i, j)
}

/// The text without any white space.
pub open spec fn without_white(s: Seq<char>) -> Seq<char>
    decreases s.len(),
{
    if s.len() == 0 {
        s
    } else if is_white(s.last()) {
        without_white(s.drop_last())
    } else {
        without_white(s.drop_last()).push(s.last())
    }
}

/// The text without any white space.
pub fn remove_white(s: &str) -> (r: String)
    ensures
        r@ == without_white(s@),
{
    let v = chars_of(s);
    let mut r = String::new();
    let mut i: usize = 0;
    assert(r@ =~= without_white(v@.take(0)));
    while i < v.len()
        invariant
            i <= v@.len(),
            r@ == without_white(v@.take(i as int)),
        decreases v@.len() - i,
    {
        assert(v@.take(i + 1).drop_last() =~= v@.take(i as int));
        if !white(v[i]) {
            r.push(v[i]);
        }
        i += 1;
    }
    assert(v@.take(i as int) =~= v@);
    r
}

/// White space is left out of a text part by part.
pub proof fn lemma_without_white_of_both(a: Seq<char>, b: Seq<char>)
    ensures
        without_white(a + b) == without_white(a) + without_white(b),
    decreases b.len(),
{
    if b.len() == 0 {
        assert(a + b =~= a);
        assert(without_white(a) + without_white(b) =~= without_white(a));
    } else {
        lemma_without_white_of_both(a, b.drop_last());
        assert((a + b).drop_last() =~= a + b.drop_last());
        if !is_white(b.last()) {
            assert(without_white(a) + without_white(b) =~= (without_white(a) + without_white(
                b.drop_last(),
            )).push(b.last()));
        }
    }
}

/// A text that has no white space is left as it is.
pub proof fn lemma_nothing_white(s: Seq<char>)
    requires
        forall|i: int| 0 <= i < s.len() ==> !is_white(#[trigger] s[i]),
    ensures
        without_white(s) == s,
    decreases s.len(),
{
    if s.len() > 0 {
        lemma_nothing_white(s.drop_last());
        assert(s.drop_last().push(s.last()) =~= s);
    }
}

/// `line` without a carriage return at its end.
pub open spec fn without_return(line: Seq<char>) -> Seq<char> {
    if line.len() > 0 && line.last() == '\r' {
        line.drop_last()
    } else {
        line
    }
}

/// The lines of a text: each ends before a line feed, or a carriage return and
/// a line feed, or at the end of the text. An empty last line does not count.
pub open spec fn lines_of(s: Seq<char>) -> Seq<Seq<char>>
    decreases s.len(),
{
    if s.len() == 0 {
        Seq::empty()
    } else {
        let n = len_before(s, '\n');
        if n < s.len() {
            seq![without_return(s.take(n as int))] + lines_of(s.skip((n + 1) as int))
        } else {
            seq![s]
        }
    }
}

/// The lines of a text, as `str::lines` finds them.
pub fn lines(s: &str) -> (out: Vec<String>)
    ensures
        texts(out@) == lines_of(s@),
{
    let v = chars_of(s);
    let mut out: Vec<String> = Vec::new();
    let mut i: usize = 0;
    assert(v@.skip(0) =~= v@);
    assert(texts(out@) + lines_of(v@) =~= lines_of(v@));
    while i < v.len()
        invariant
            i <= v@.len(),
            texts(out@) + lines_of(v@.skip(i as int)) == lines_of(v@),
        decreases v@.len() - i,
    {
        let ghost rest = v@.skip(i as int);
        let start: usize = i;
        while i < v.len() && v[i] != '\n'
            invariant
                start <= i <= v@.len(),
                forall|j: int| start <= j < i ==> #[trigger] v@[j] != '\n',
            decreases v@.len() - i,
        {
            i += 1;
        }
        proof {
            let n = i - start;
            assert forall|j: int| 0 <= j < n implies #[trigger] rest[j] != '\n' by {
                assert(rest[j] == v@[start + j]);
            }
            lemma_len_before(rest, '\n', n);
        }
        let mut end: usize = i;
        if i < v.len() {
            if end > start && v[end - 1] == '\r' {
                end -= 1;
            }
            i += 1;
        }
        let line = text_between(&v, start, end);
        proof {
            let n = len_before(rest, '\n') as int;
            if n < rest.len() {
                assert(without_return(rest.take(n)) =~= line@);
                assert(rest.skip(n + 1) =~= v@.skip(i as int));
            } else {
                assert(line@ =~= rest);
                assert(v@.skip(i as int).len() == 0);
                assert(lines_of(rest) =~= seq![line@] + lines_of(v@.skip(i as int)));
            }
            assert(texts(out@.push(line)) =~= texts(out@).push(line@));
            assert(texts(out@) + (seq![line@] + lines_of(v@.skip(i as int))) =~= texts(
                out@.push(line),
            ) + lines_of(v@.skip(i as int)));
        }
        out.push(line);
    }
    assert(v@.skip(i as int).len() == 0);
    assert(texts(out@) + Seq::<Seq<char>>::empty() =~= texts(out@));
    out
}

/// The lines of two texts, of which the first ends with its line, are the lines
/// of both.
pub proof fn lemma_lines_of_both(a: Seq<char>, b: Seq<char>)
    requires
        a.len() > 0 ==> a.last() == '\n',
    ensures
        lines_of(a + b) == lines_of(a) + lines_of(b),
    decreases a.len(),
{
    if a.len() == 0 {
        assert(a + b =~= b);
        assert(lines_of(a) + lines_of(b) =~= lines_of(b));
    } else {
        let s = a + b;
        let stop = is_char('\n');
        lemma_prefix_len_is(a, stop);
        let n = len_before(a, '\n') as int;
        assert(n < a.len()) by {
            if n == a.len() {
                assert(!stop(a[a.len() - 1]));
            }
        }
        assert forall|j: int| 0 <= j < n implies #[trigger] s[j] != '\n' by {
            assert(s[j] == a[j] && !stop(a[j]));
        }
        assert(stop(a[n]));
        assert(s[n] == a[n]);
        lemma_len_before(s, '\n', n);
        let rest = a.skip(n + 1);
        assert(s.take(n) =~= a.take(n));
        assert(s.skip(n + 1) =~= rest + b);
        if rest.len() > 0 {
            assert(rest.last() == a.last());
        }
        lemma_lines_of_both(rest, b);
        assert(lines_of(s) =~= lines_of(a) + lines_of(b));
    }
}

/// A text without line feeds is one line, with a line feed behind it or not.
pub proof fn lemma_one_line(s: Seq<char>)
    requires
        s.len() > 0,
        !s.contains('\n'),
    ensures
        lines_of(s) == seq![s],
        lines_of(s.push('\n')) == seq![without_return(s)],
{
    let n = s.len() as int;
    let t = s.push('\n');
    assert forall|j: int| 0 <= j < n implies #[trigger] s[j] != '\n' by {
        assert(s.contains(s[j]));
    }
    lemma_len_before(s, '\n', n);
    assert forall|j: int| 0 <= j < n implies #[trigger] t[j] != '\n' by {
        assert(t[j] == s[j]);
    }
    lemma_len_before(t, '\n', n);
    assert(t.take(n) =~= s);
    assert(t.skip(n + 1) =~= Seq::<char>::empty());
    assert(lines_of(t.skip(n + 1)) =~= Seq::<Seq<char>>::empty());
    assert(lines_of(t) =~= seq![without_return(s)]);
}

/// A text that does not end with its line has the same lines when it does, but
/// for a carriage return at the end of the last.
pub proof fn lemma_last_line_ended(s: Seq<char>)
    requires
        s.len() > 0,
        s.last() != '\n',
    ensures
        lines_of(s).len() > 0,
        lines_of(s.push('\n')) == lines_of(s).drop_last().push(
            without_return(lines_of(s).last()),
        ),
    decreases s.len(),
{
    let stop = is_char('\n');
    lemma_prefix_len_is(s, stop);
    let n = len_before(s, '\n') as int;
    if n == s.len() {
        assert(!s.contains('\n')) by {
            if s.contains('\n') {
                let i = s.index_of('\n');
                assert(!stop(s[i]));
            }
        }
        lemma_one_line(s);
        assert(lines_of(s).drop_last().push(without_return(s)) =~= seq![without_return(s)]);
    } else {
        let t = s.push('\n');
        let rest = s.skip(n + 1);
        assert forall|j: int| 0 <= j < n implies #[trigger] t[j] != '\n' by {
            assert(t[j] == s[j] && !stop(s[j]));
        }
        assert(stop(s[n]) && t[n] == s[n]);
        lemma_len_before(t, '\n', n);
        assert(n + 1 < s.len()) by {
            if n + 1 == s.len() {
                assert(s.last() == s[n]);
            }
        }
        assert(rest.last() == s.last());
        assert(t.take(n) =~= s.take(n));
        assert(t.skip(n + 1) =~= rest.push('\n'));
        lemma_last_line_ended(rest);
        let first = without_return(s.take(n));
        assert(lines_of(s) =~= seq![first] + lines_of(rest));
        assert(lines_of(s).drop_last() =~= seq![first] + lines_of(rest).drop_last());
        assert(lines_of(t) =~= lines_of(s).drop_last().push(without_return(lines_of(s).last())));
    }
}

/// The pieces of a text between the separators `sep`; there is always one
/// piece more than there are separators.
pub open spec fn pieces(s: Seq<char>, sep: char) -> Seq<Seq<char>>
    decreases s.len(),
{
    let n = len_before(s, sep);
    if n < s.len() {
        seq![s.take(n as int)] + pieces(s.skip((n + 1) as int), sep)
    } else {
        seq![s]
    }
}

/// The pieces of a text between the separators `sep`.
pub fn split_on(s: &str, sep: char) -> (out: Vec<String>)
    ensures
        texts(out@) == pieces(s@, sep),
{
    let v = chars_of(s);
    let mut out: Vec<String> = Vec::new();
    let mut start: usize = 0;
    let mut i: usize = 0;
    assert(v@.skip(0) =~= v@);
    assert(texts(out@) + pieces(v@, sep) =~= pieces(v@, sep));
    while i < v.len()
        invariant
            start <= i <= v@.len(),
            forall|j: int| start <= j < i ==> #[trigger] v@[j] != sep,
            texts(out@) + pieces(v@.skip(start as int), sep) == pieces(v@, sep),
        decreases v@.len() - i,
    {
        if v[i] == sep {
            let ghost rest = v@.skip(start as int);
            let piece = text_between(&v, start, i);
            proof {
                let n = i - start;
                assert forall|j: int| 0 <= j < n implies #[trigger] rest[j] != sep by {
                    assert(rest[j] == v@[start + j]);
                }
                lemma_len_before(rest, sep, n);
                assert(rest.take(n) =~= piece@);
                assert(rest.skip(n + 1) =~= v@.skip(i + 1));
                assert(texts(out@.push(piece)) =~= texts(out@).push(piece@));
                assert(texts(out@) + (seq![piece@] + pieces(v@.skip(i + 1), sep)) =~= texts(
                    out@.push(piece),
                ) + pieces(v@.skip(i + 1), sep));
            }
            out.push(piece);
            start = i + 1;
        }
        i += 1;
    }
    let last = text_between(&v, start, v.len());
    proof {
        let rest = v@.skip(start as int);
        assert forall|j: int| 0 <= j < rest.len() implies #[trigger] rest[j] != sep by {
            assert(rest[j] == v@[start + j]);
        }
        lemma_len_before(rest, sep, rest.len() as int);
        assert(last@ =~= rest);
        assert(texts(out@.push(last)) =~= texts(out@) + seq![last@]);
    }
    out.push(last);
    out
}

/// The texts `parts`, with `sep` between each two.
pub open spec fn joined(parts: Seq<Seq<char>>, sep: Seq<char>) -> Seq<char>
    decreases parts.len(),
{
    if parts.len() == 0 {
        Seq::empty()
    } else if parts.len() == 1 {
        parts[0]
    } else {
        joined(parts.drop_last(), sep) + sep + parts.last()
    }
}

/// The strings of `parts`, with `sep` between each two.
pub fn join(parts: &Vec<String>, sep: &str) -> (r: String)
    ensures
        r@ == joined(texts(parts@), sep@),
{
    assert(texts(parts@).skip(0) =~= texts(parts@));
    join_from(parts, 0, sep)
}

/// The strings of `parts` from `from` on, with `sep` between each two.
pub fn join_from(parts: &Vec<String>, from: usize, sep: &str) -> (r: String)
    requires
        from <= parts@.len(),
    ensures
        r@ == joined(texts(parts@).skip(from as int), sep@),
{
    let mut r = String::new();
    let mut i: usize = from;
    let ghost all = texts(parts@);
    while i < parts.len()
        invariant
            from <= i <= parts@.len(),
            all == texts(parts@),
            r@ == joined(all.subrange(from as int, i as int), sep@),
        decreases parts@.len() - i,
    {
        if i > from {
            r.append(sep);
        }
        r.append(parts[i].as_str());
        proof {
            let done = all.subrange(from as int, i + 1);
            assert(done.drop_last() =~= all.subrange(from as int, i as int));
            assert(done.last() == parts@[i as int]@);
            if i == from {
                assert(Seq::<char>::empty() + parts@[i as int]@ =~= parts@[i as int]@);
            }
        }
        i += 1;
    }
    assert(all.subrange(from as int, i as int) =~= all.skip(from as int));
    r
}

// ---------------------------------------------------------------------------
// Searching and replacing
// ---------------------------------------------------------------------------

/// Whether `p` stands anywhere in `s`.
pub open spec fn has_text(s: Seq<char>, p: Seq<char>) -> bool {
    exists|i: int| stands_at(s, i, p)
}

/// Whether `p` stands anywhere in `s`.
pub fn contains_text(s: &str, p: &str) -> (r: bool)
    ensures
        r == has_text(s@, p@),
{
    let v = chars_of(s);
    let q = chars_of(p);
    if q.len() > v.len() {
        return false;
    }
    let last: usize = v.len() - q.len();
    let mut i: usize = 0;
    loop
        invariant
            i <= last,
            last == v@.len() - q@.len(),
            v@ == s@,
            q@ == p@,
            forall|j: int| 0 <= j < i ==> !stands_at(s@, j, p@),
        decreases last - i,
    {
        if found_at(&v, i, &q) {
            return true;
        }
        if i == last {
            return false;
        }
        i += 1;
    }
}

/// The position of the first `c` in `s`, if there is one.
pub fn find_char(v: &Vec<char>, c: char) -> (r: Option<usize>)
    ensures
        match r {
            Some(i) => i < v@.len() && v@[i as int] == c && i == len_before(v@, c),
            None => len_before(v@, c) == v@.len() && !v@.contains(c),
        },
{
    let mut i: usize = 0;
    while i < v.len()
        invariant
            i <= v@.len(),
            forall|j: int| 0 <= j < i ==> #[trigger] v@[j] != c,
        decreases v@.len() - i,
    {
        if v[i] == c {
            proof {
                lemma_len_before(v@, c, i as int);
            }
            return Some(i);
        }
        i += 1;
    }
    proof {
        lemma_len_before(v@, c, i as int);
    }
    None
}

/// Whether the character `c` occurs in `s`.
pub fn contains_char(s: &str, c: char) -> (r: bool)
    ensures
        r == s@.contains(c),
{
    let v = chars_of(s);
    match find_char(&v, c) {
        Some(i) => {
            assert(v@[i as int] == c);
            true
        },
        None => false,
    }
}

/// `s` with every occurrence of `find` replaced by `with`, from left to right
/// and without overlap. The empty text occurs before each character and at the end.
pub open spec fn replaced(s: Seq<char>, find: Seq<char>, with: Seq<char>) -> Seq<char>
    decreases s.len(),
{
    if find.len() == 0 {
        if s.len() == 0 {
            with
        } else {
            with + seq![s[0]] + replaced(s.drop_first(), find, with)
        }
    } else if s.len() == 0 {
        Seq::empty()
    } else if begins_with(s, find) {
        with + replaced(s.skip(find.len() as int), find, with)
    } else {
        seq![s[0]] + replaced(s.drop_first(), find, with)
    }
}

/// `s` with every occurrence of `find` replaced by `with`, as `str::replace` does it.
pub fn replace_text(s: &str, find: &str, with: &str) -> (r: String)
    ensures
        r@ == replaced(s@, find@, with@),
{
    let v = chars_of(s);
    let q = chars_of(find);
    let mut r = String::new();
    let mut i: usize = 0;
    assert(v@.skip(0) =~= v@);
    assert(r@ + replaced(v@, q@, with@) =~= replaced(v@, q@, with@));
    while i < v.len()
        invariant
            i <= v@.len(),
            q@ == find@,
            r@ + replaced(v@.skip(i as int), q@, with@) == replaced(v@, q@, with@),
        decreases v@.len() - i,
    {
        let ghost rest = v@.skip(i as int);
        let ghost before = r@;
        assert(rest.drop_first() =~= v@.skip(i + 1));
        if q.len() == 0 {
            r.append(with);
            r.push(v[i]);
            i += 1;
            assert(r@ + replaced(v@.skip(i as int), q@, with@) =~= before + (with@ + seq![rest[0]]
                + replaced(rest.drop_first(), q@, with@)));
        } else if found_at(&v, i, &q) {
            assert(v@.subrange(i as int, i + q@.len()) =~= rest.take(q@.len() as int));
            assert(rest.skip(q@.len() as int) =~= v@.skip(i + q@.len()));
            r.append(with);
            i += q.len();
            assert(r@ + replaced(v@.skip(i as int), q@, with@) =~= before + (with@ + replaced(
                rest.skip(q@.len() as int),
                q@,
                with@,
            )));
        } else {
            proof {
                if begins_with(rest, q@) {
                    assert(v@.subrange(i as int, i + q@.len()) =~= rest.take(q@.len() as int));
                }
            }
            r.push(v[i]);
            i += 1;
            assert(r@ + replaced(v@.skip(i as int), q@, with@) =~= before + (seq![rest[0]]
                + replaced(rest.drop_first(), q@, with@)));
        }
    }
    assert(v@.skip(i as int).len() == 0);
    if q.len() == 0 {
        r.append(with);
    } else {
        assert(r@ + Seq::<char>::empty() =~= r@);
    }
    r
}

// ---------------------------------------------------------------------------
// Laws
// ---------------------------------------------------------------------------

/// Within ASCII, white space is the blank, the tabs, the line feed, the form
/// feed and the carriage return.
pub proof fn ascii_white_space(c: char)
    requires
        c as u32 <= 0x7f,
    ensures
        is_white(c) <==> c as u32 == 0x20 || 0x09 <= c as u32 <= 0x0d,
{
}

/// Trimming takes white space from both ends, all of it and nothing else.
pub proof fn trimming_takes_white_space_from_the_ends(s: Seq<char>) -> (ends: (int, int))
    ensures
        0 <= ends.0 <= ends.1 <= s.len(),
        trimmed(s) == s.subrange(ends.0, ends.1),
        forall|k: int| 0 <= k < ends.0 ==> is_white(#[trigger] s[k]),
        forall|k: int| ends.1 <= k < s.len() ==> is_white(#[trigger] s[k]),
        trimmed(s).len() > 0 ==> !is_white(trimmed(s)[0]) && !is_white(
            trimmed(s)[trimmed(s).len() - 1],
        ),
    decreases s.len(),
{
    if s.len() > 0 && is_white(s[0]) {
        let t = s.drop_first();
        let (i, j) = trimming_takes_white_space_from_the_ends(t);
        assert(t.subrange(i, j) =~= s.subrange(i + 1, j + 1));
        assert forall|k: int| 0 <= k < i + 1 implies is_white(#[trigger] s[k]) by {
            if k > 0 {
                assert(s[k] == t[k - 1]);
            }
        }
        assert forall|k: int| j + 1 <= k < s.len() implies is_white(#[trigger] s[k]) by {
            assert(s[k] == t[k - 1]);
        }
        (i + 1, j + 1)
    } else if s.len() > 0 && is_white(s.last()) {
        let t = s.drop_last();
        let (i, j) = trimming_takes_white_space_from_the_ends(t);
        assert(t.subrange(i, j) =~= s.subrange(i, j));
        assert forall|k: int| 0 <= k < i implies is_white(#[trigger] s[k]) by {
            assert(s[k] == t[k]);
        }
        assert forall|k: int| j <= k < s.len() implies is_white(#[trigger] s[k]) by {
            if k < t.len() {
                assert(s[k] == t[k]);
            }
        }
        (i, j)
    } else {
        assert(s.subrange(0, s.len() as int) =~= s);
        (0, s.len() as int)
    }
}

/// Leaving out white space leaves none in, and leaves everything else.
pub proof fn white_space_is_left_out(s: Seq<char>, c: char)
    ensures
        is_white(c) ==> without_white(s.push(c)) == without_white(s),
        !is_white(c) ==> without_white(s.push(c)) == without_white(s).push(c),
        forall|i: int| 0 <= i < without_white(s).len() ==> !is_white(#[trigger] without_white(s)[i]),
    decreases s.len(),
{
    assert(s.push(c).drop_last() =~= s);
    if s.len() > 0 {
        white_space_is_left_out(s.drop_last(), s.last());
        assert(s.drop_last().push(s.last()) =~= s);
    }
}

/// A line ends with a line feed, with or without a carriage return before it;
/// neither is part of the line.
pub proof fn line_ends_are_no_part_of_lines(line: Seq<char>, rest: Seq<char>)
    requires
        !line.contains('\n'),
    ensures
        lines_of(line.push('\r').push('\n') + rest) == seq![line] + lines_of(rest),
        line.len() == 0 || line.last() != '\r' ==> lines_of(line.push('\n') + rest) == seq![line]
            + lines_of(rest),
        line.len() > 0 ==> lines_of(line) == seq![line],
        lines_of(Seq::empty()).len() == 0,
{
    let n = line.len() as int;
    let a = line.push('\n') + rest;
    let b = line.push('\r').push('\n') + rest;
    assert forall|j: int| 0 <= j < n implies #[trigger] line[j] != '\n' by {
        assert(line.contains(line[j]));
    }
    assert forall|j: int| 0 <= j < n implies #[trigger] a[j] != '\n' by {
        assert(a[j] == line[j]);
    }
    assert(a[n] == '\n');
    lemma_len_before(a, '\n', n);
    assert(a.take(n) =~= line);
    assert(a.skip(n + 1) =~= rest);
    assert forall|j: int| 0 <= j < n + 1 implies #[trigger] b[j] != '\n' by {
        if j < n {
            assert(b[j] == line[j]);
        }
    }
    assert(b[n + 1] == '\n');
    lemma_len_before(b, '\n', n + 1);
    assert(b.take(n + 1) =~= line.push('\r'));
    assert(b.skip(n + 2) =~= rest);
    assert(line.push('\r').drop_last() =~= line);
    lemma_len_before(line, '\n', n);
}

/// The pieces of a text, with the separator between them, are the text; and no
/// piece holds the separator.
pub proof fn pieces_make_up_the_text(s: Seq<char>, sep: char)
    ensures
        pieces(s, sep).len() > 0,
        joined(pieces(s, sep), seq![sep]) == s,
        forall|i: int| 0 <= i < pieces(s, sep).len() ==> !(#[trigger] pieces(s, sep)[i]).contains(sep),
    decreases s.len(),
{
    let stop = is_char(sep);
    lemma_prefix_len_is(s, stop);
    let n = len_before(s, sep) as int;
    let first = s.take(n);
    assert(!first.contains(sep)) by {
        if first.contains(sep) {
            let i = first.index_of(sep);
            assert(!stop(s[i]));
        }
    }
    if n < s.len() {
        let rest = s.skip(n + 1);
        pieces_make_up_the_text(rest, sep);
        let tail = pieces(rest, sep);
        assert(pieces(s, sep) =~= seq![first] + tail);
        assert(stop(s[n]));
        joining_joins(seq![first], tail, seq![sep]);
        assert(joined(seq![first], seq![sep]) == first);
        assert(first + seq![sep] + rest =~= s);
        assert forall|i: int| 0 <= i < pieces(s, sep).len() implies !(#[trigger] pieces(
            s,
            sep,
        )[i]).contains(sep) by {
            if i > 0 {
                assert(pieces(s, sep)[i] == tail[i - 1]);
            }
        }
    } else {
        assert(first =~= s);
    }
}

/// Joined texts stand one behind the other with the separator between them.
pub proof fn joining_joins(a: Seq<Seq<char>>, b: Seq<Seq<char>>, sep: Seq<char>)
    requires
        a.len() > 0,
        b.len() > 0,
    ensures
        joined(a + b, sep) == joined(a, sep) + sep + joined(b, sep),
        a.len() == 1 ==> joined(a, sep) == a[0],
        joined(Seq::empty(), sep).len() == 0,
    decreases b.len(),
{
    let s = a + b;
    assert(s.last() == b.last());
    assert(s.drop_last() =~= a + b.drop_last());
    if b.len() == 1 {
        assert(a + b.drop_last() =~= a);
    } else {
        joining_joins(a, b.drop_last(), sep);
        assert(joined(a, sep) + sep + joined(b.drop_last(), sep) + sep + b.last() =~= joined(a, sep)
            + sep + (joined(b.drop_last(), sep) + sep + b.last()));
    }
}

/// A text holds another where it is made of something, the other, and something
/// again.
pub proof fn holding_is_standing_between(s: Seq<char>, p: Seq<char>)
    ensures
        has_text(s, p) <==> exists|a: Seq<char>, b: Seq<char>| s == #[trigger] (a + p + b),
{
    if has_text(s, p) {
        let i = choose|i: int| stands_at(s, i, p);
        let a = s.take(i);
        let b = s.skip(i + p.len());
        assert(s =~= a + p + b);
    }
    if exists|a: Seq<char>, b: Seq<char>| s == #[trigger] (a + p + b) {
        let (a, b) = choose|a: Seq<char>, b: Seq<char>| s == #[trigger] (a + p + b);
        assert(s.subrange(a.len() as int, a.len() as int + p.len() as int) =~= p);
        assert(stands_at(s, a.len() as int, p));
    }
}

/// Every occurrence is replaced, one after the other: what stands before the
/// first stays, the occurrence gives way, and behind it the same goes on.
pub proof fn occurrences_are_replaced(
    a: Seq<char>,
    find: Seq<char>,
    b: Seq<char>,
    with: Seq<char>,
)
    requires
        find.len() > 0,
        forall|i: int|
            0 <= i < a.len() ==> #[trigger] (a + find + b).subrange(i, i + find.len()) != find,
    ensures
        replaced(a + find + b, find, with) == a + with + replaced(b, find, with),
    decreases a.len(),
{
    let s = a + find + b;
    let n = find.len() as int;
    if a.len() == 0 {
        assert(s.take(n) =~= find);
        assert(s.skip(n) =~= b);
        assert(a + with + replaced(b, find, with) =~= with + replaced(b, find, with));
    } else {
        let t = a.drop_first() + find + b;
        assert(s.drop_first() =~= t);
        assert(s.subrange(0, 0 + n) =~= s.take(n));
        assert(!begins_with(s, find));
        assert forall|i: int| 0 <= i < a.drop_first().len() implies #[trigger] t.subrange(i, i + n)
            != find by {
            assert(t.subrange(i, i + n) =~= s.subrange(i + 1, i + 1 + n));
        }
        occurrences_are_replaced(a.drop_first(), find, b, with);
        assert(seq![s[0]] + (a.drop_first() + with + replaced(b, find, with)) =~= a + with
            + replaced(b, find, with));
    }
}

/// A text in which nothing occurs that is looked for stays as it is. The empty
/// text occurs before every character and at the end.
pub proof fn the_rest_is_kept(s: Seq<char>, find: Seq<char>, with: Seq<char>)
    ensures
        find.len() > 0 && (forall|i: int|
            0 <= i <= s.len() - find.len() ==> #[trigger] s.subrange(i, i + find.len()) != find)
            ==> replaced(s, find, with) == s,
        find.len() == 0 ==> replaced(Seq::empty(), find, with) == with,
        find.len() == 0 && s.len() > 0 ==> replaced(s, find, with) == with + seq![s[0]] + replaced(
            s.skip(1),
            find,
            with,
        ),
    decreases s.len(),
{
    let n = find.len() as int;
    assert(s.len() > 0 ==> s.drop_first() =~= s.skip(1));
    if n > 0 && s.len() > 0 && (forall|i: int|
        0 <= i <= s.len() - n ==> #[trigger] s.subrange(i, i + n) != find) {
        let t = s.drop_first();
        if begins_with(s, find) {
            assert(s.subrange(0, 0 + n) =~= s.take(n));
        }
        assert forall|i: int| 0 <= i <= t.len() - n implies #[trigger] t.subrange(i, i + n)
            != find by {
            assert(t.subrange(i, i + n) =~= s.subrange(i + 1, i + 1 + n));
        }
        the_rest_is_kept(t, find, with);
        assert(seq![s[0]] + t =~= s);
    }
}

/// White space is what Unicode calls so, and nothing else.
pub proof fn white_space_is_that_of_unicode(c: char)
    ensures
        is_white(c) <==> {
            let code = c as u32;
            ||| 0x09 <= code <= 0x0d
            ||| code == 0x20
            ||| code == 0x85
            ||| code == 0xa0
            ||| code == 0x1680
            ||| 0x2000 <= code <= 0x200a
            ||| code == 0x2028
            ||| code == 0x2029
            ||| code == 0x202f
            ||| code == 0x205f
            ||| code == 0x3000
        },
{
}

/// Words are what stands between white space: nothing before the first one or
/// behind the last counts, and each is taken whole.
pub proof fn words_stand_between_white_space(
    before: char,
    word: Seq<char>,
    between: char,
    rest: Seq<char>,
)
    requires
        is_white(before),
        is_white(between),
        word.len() > 0,
        forall|i: int| 0 <= i < word.len() ==> !is_white(#[trigger] word[i]),
    ensures
        words(seq![before] + rest) == words(rest),
        words(word + seq![between] + rest) == seq![word] + words(rest),
        words(word) == seq![word],
        words(Seq::empty()).len() == 0,
{
    let none = Seq::<char>::empty();
    lemma_leading_white(before, rest);
    lemma_leading_white(between, rest);
    lemma_first_word(word, seq![between] + rest);
    assert(word + (seq![between] + rest) =~= word + seq![between] + rest);
    lemma_first_word(word, none);
    assert(word + none =~= word);
    assert(seq![word] + words(none) =~= seq![word]);
}

/// The case of letters of ASCII is changed, and nothing else.
pub proof fn case_is_that_of_ascii(s: Seq<char>, i: int)
    requires
        forall|k: int| 0 <= k < s.len() ==> #[trigger] s[k] <= '\u{7f}',
        0 <= i < s.len(),
    ensures
        lowercase_text(s).len() == s.len(),
        uppercase_text(s).len() == s.len(),
        'A' <= s[i] <= 'Z' ==> lowercase_text(s)[i] as u32 == s[i] as u32 + 32,
        !('A' <= s[i] <= 'Z') ==> lowercase_text(s)[i] == s[i],
        'a' <= s[i] <= 'z' ==> uppercase_text(s)[i] as u32 == s[i] as u32 - 32,
        !('a' <= s[i] <= 'z') ==> uppercase_text(s)[i] == s[i],
{
}

} // verus!
