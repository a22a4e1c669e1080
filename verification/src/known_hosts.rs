//! Host keys: which are known, and trusting a host on first use.

use crate::encoding::{base64_bytes, decode};
use crate::error::Error;
use crate::number::{decimal, decimal_text, lemma_decimal_digits};
use crate::text::{
    begins_with, cat3, cat4, chars_of, contains_char, is_char, is_digit, is_white, is_word, join,
    joined, lemma_first_word, lemma_last_line_ended, lemma_leading_white, lemma_len_before,
    lemma_lines_of_both, lemma_one_line, lemma_prefix_len_is, lemma_trailing_white,
    lemma_words_are_words, len_before, line_ends_are_no_part_of_lines, lines, lines_of, pieces,
    pieces_make_up_the_text, same_text, split_on, split_whitespace, strip_prefix, text_between,
    texts, without_return, words,
};
use crate::util::DEFAULT_PORT;
use vstd::prelude::*;
use vstd::string::*;
use vstd::utf8::encode_utf8;

verus! {

// ---------------------------------------------------------------------------
// Keys
// ---------------------------------------------------------------------------

/// What becomes of the text of a public key when it is read and written again:
/// nothing where it is no public key, and nothing inside where the key cannot
/// be written.
pub uninterp spec fn rewritten(text: Seq<char>) -> Option<Option<Seq<char>>>;

/// A character that the algorithm and the data of a key are written with: a
/// letter or digit of ASCII, or one of `+ - / = @ .`.
pub open spec fn is_key_char(c: char) -> bool {
    ||| 'A' <= c <= 'Z'
    ||| 'a' <= c <= 'z'
    ||| '0' <= c <= '9'
    ||| c == '+'
    ||| c == '-'
    ||| c == '/'
    ||| c == '='
    ||| c == '@'
    ||| c == '.'
}

/// Whether `s` is made of such characters.
pub open spec fn is_key_word(s: Seq<char>) -> bool {
    forall|i: int| 0 <= i < s.len() ==> is_key_char(#[trigger] s[i])
}

/// The number that four bytes stand for, the highest first.
pub open spec fn number_of(b: Seq<u8>) -> int {
    ((b[0] * 256 + b[1]) * 256 + b[2]) * 256 + b[3]
}

/// Where the label ends that the data of a key begins with: its length in four
/// bytes, and as many bytes. Data that ends before that has none.
pub open spec fn label_end(bytes: Seq<u8>) -> int {
    if bytes.len() >= 4 && 4 + number_of(bytes) <= bytes.len() {
        4 + number_of(bytes)
    } else {
        0
    }
}

/// What the label of a certificate holds between its name and its domain:
/// `-cert-v01@`.
pub open spec fn cert_mark() -> Seq<u8> {
    seq![0x2du8, 0x63, 0x65, 0x72, 0x74, 0x2d, 0x76, 0x30, 0x31, 0x40]
}

/// Whether the mark of a certificate stands at position `i`.
pub open spec fn marked_at(bytes: Seq<u8>, i: int) -> bool {
    0 <= i && i + 10 <= bytes.len() && bytes.subrange(i, i + 10) == cert_mark()
}

/// Whether the data of a key begins with the label of a certificate.
pub open spec fn is_certificate(bytes: Seq<u8>) -> bool {
    exists|i: int| 4 <= i && i + 10 <= label_end(bytes) && #[trigger] marked_at(bytes, i)
}

/// Whether the data is that of a key, or of a certificate that can hold no other
/// certificate, and whose label has a name: the mark stands in it only once, and
/// not at the beginning of the label.
pub open spec fn is_simple(bytes: Seq<u8>) -> bool {
    is_certificate(bytes) ==> !marked_at(bytes, 4) && forall|i: int, j: int| #[trigger]
        marked_at(bytes, i) && #[trigger] marked_at(bytes, j) ==> i == j
}

/// The data of the key that a text gives: its second word, in base64. There is
/// none where it is not.
pub open spec fn key_bytes(text: Seq<char>) -> Option<Seq<u8>> {
    if words(text).len() < 2 {
        None
    } else {
        match base64_bytes(words(text)[1]) {
            Ok(bytes) => Some(bytes),
            Err(_) => None,
        }
    }
}

/// Whether a text holds data that may be read as a key.
pub open spec fn is_admitted(text: Seq<char>) -> bool {
    key_bytes(text) matches Some(bytes) && is_simple(bytes)
}

/// Whether a key can be read back from what was written of it: the first two
/// words are its algorithm and its data, and these two, with a space between
/// them, are read and written again as they are.
pub open spec fn reads_back(written: Seq<char>) -> bool {
    let w = words(written);
    &&& w.len() >= 2
    &&& is_key_word(w[0])
    &&& is_key_word(w[1])
    &&& is_admitted(w[0] + " "@ + w[1])
    &&& rewritten(w[0] + " "@ + w[1]) == Some(Some(w[0] + " "@ + w[1]))
}

/// `russh::keys::PublicKey::from_openssh`, and `PublicKey::to_openssh` on the
/// key that it reads: a function of the text. What is written can be read back,
/// a certificate too. Which texts are public keys stays unsaid.
/// Two kinds of certificates are left out. One that was signed by a certificate
/// is read by a call within a call, however deep they are nested; and one whose
/// label has no name before `-cert-v01@` is read, but makes writing it panic.
#[verifier::external_body]
fn rewrite(text: &str) -> (r: Option<Option<String>>)
    requires
        is_admitted(text@),
    ensures
        match r {
            None => rewritten(text@) is None,
            Some(None) => rewritten(text@) == Some(None::<Seq<char>>),
            Some(Some(written)) => rewritten(text@) == Some(Some(written@)) && reads_back(written@),
        },
{
    match russh::keys::PublicKey::from_openssh(text) {
        Ok(key) => Some(key.to_openssh().ok()),
        Err(_) => None,
    }
}

/// The key of a host.
#[derive(Debug)]
pub struct HostKey {
    /// The key in the format of OpenSSH, if it can be written so.
    pub encoded: Option<String>,
}

impl View for HostKey {
    type V = Option<Seq<char>>;

    open spec fn view(&self) -> Option<Seq<char>> {
        match self.encoded {
            Some(s) => Some(s@),
            None => None,
        }
    }
}

/// Whether a key, if it can be written, can be read back.
pub open spec fn readable(key: Option<Seq<char>>) -> bool {
    key matches Some(written) ==> reads_back(written)
}

/// The algorithm and the data of a written key, without its comment.
pub open spec fn canonical(key: Option<Seq<char>>) -> Result<Seq<char>, Error> {
    match key {
        None => Err(Error::KeyEncoding),
        Some(written) => if words(written).len() == 0 {
            Err(Error::KeyWithoutAlgorithm)
        } else if words(written).len() == 1 {
            Err(Error::KeyWithoutData)
        } else {
            Ok(words(written)[0] + " "@ + words(written)[1])
        },
    }
}

/// The algorithm and the data of a key, without its comment.
pub fn canonical_public_key(key: &HostKey) -> (r: Result<String, Error>)
    ensures
        match r {
            Ok(s) => canonical(key@) == Ok::<Seq<char>, Error>(s@),
            Err(e) => canonical(key@) == Err::<Seq<char>, Error>(e),
        },
{
    match &key.encoded {
        None => Err(Error::KeyEncoding),
        Some(written) => {
            let parts = split_whitespace(written.as_str());
            assert(texts(parts@).len() == parts@.len());
            if parts.len() == 0 {
                Err(Error::KeyWithoutAlgorithm)
            } else if parts.len() == 1 {
                Err(Error::KeyWithoutData)
            } else {
                assert(texts(parts@)[0] == parts@[0]@ && texts(parts@)[1] == parts@[1]@);
                Ok(cat3(parts[0].as_str(), " ", parts[1].as_str()))
            }
        },
    }
}

/// The key that a text gives, if it gives one, as far as it can be written. A
/// certificate that may hold another, or whose label has no name, is none.
pub open spec fn key_in(text: Seq<char>) -> Option<Option<Seq<char>>> {
    if is_admitted(text) {
        rewritten(text)
    } else {
        None
    }
}

/// Whether the mark of a certificate stands at position `i`.
fn is_marked_at(bytes: &Vec<u8>, i: usize) -> (r: bool)
    ensures
        r == marked_at(bytes@, i as int),
{
    if bytes.len() < 10 || i > bytes.len() - 10 {
        return false;
    }
    let r = bytes[i] == 0x2d && bytes[i + 1] == 0x63 && bytes[i + 2] == 0x65 && bytes[i + 3] == 0x72
        && bytes[i + 4] == 0x74 && bytes[i + 5] == 0x2d && bytes[i + 6] == 0x76 && bytes[i + 7]
        == 0x30 && bytes[i + 8] == 0x31 && bytes[i + 9] == 0x40;
    proof {
        let here = bytes@.subrange(i as int, i + 10);
        if r {
            assert(here =~= cert_mark());
        } else if here == cert_mark() {
            assert(forall|k: int| 0 <= k < 10 ==> here[k] == bytes@[i + k]);
            assert(here[0] == 0x2d && here[1] == 0x63 && here[2] == 0x65 && here[3] == 0x72
                && here[4] == 0x74 && here[5] == 0x2d && here[6] == 0x76 && here[7] == 0x30
                && here[8] == 0x31 && here[9] == 0x40);
        }
    }
    r
}

/// Whether the data is that of a key, or of a certificate that can hold no other
/// and whose label has a name.
fn simple(bytes: &Vec<u8>) -> (r: bool)
    ensures
        r == is_simple(bytes@),
{
    let mut end: usize = 0;
    if bytes.len() >= 4 {
        let n: u64 = ((bytes[0] as u64 * 256 + bytes[1] as u64) * 256 + bytes[2] as u64) * 256
            + bytes[3] as u64;
        if n <= (bytes.len() - 4) as u64 {
            end = 4 + n as usize;
        }
    }
    let mut first: Option<usize> = None;
    let mut twice = false;
    let mut certificate = false;
    let mut i: usize = 0;
    while i < bytes.len()
        invariant
            i <= bytes@.len(),
            end == label_end(bytes@),
            end <= bytes@.len(),
            match first {
                Some(f) => f < i && marked_at(bytes@, f as int),
                None => forall|k: int| 0 <= k < i ==> !marked_at(bytes@, k),
            },
            match first {
                Some(f) => !twice ==> forall|k: int| 0 <= k < i && marked_at(bytes@, k) ==> k == f,
                None => !twice,
            },
            twice ==> exists|j: int, k: int| j != k && marked_at(bytes@, j) && marked_at(bytes@, k),
            certificate == exists|k: int|
                4 <= k < i && k + 10 <= end && #[trigger] marked_at(bytes@, k),
        decreases bytes@.len() - i,
    {
        if is_marked_at(bytes, i) {
            if i >= 4 && end >= 10 && i <= end - 10 {
                certificate = true;
            }
            if first.is_none() {
                first = Some(i);
            } else {
                twice = true;
            }
        }
        i += 1;
    }
    assert(forall|k: int| marked_at(bytes@, k) ==> 0 <= k < i);
    !certificate || (!is_marked_at(bytes, 4) && !twice)
}

impl HostKey {
    /// Reads a key in the format of OpenSSH.
    pub fn from_openssh(text: &str) -> (r: Option<HostKey>)
        ensures
            match r {
                Some(key) => key_in(text@) == Some(key@) && readable(key@),
                None => key_in(text@) is None,
            },
    {
        let parts = split_whitespace(text);
        assert(texts(parts@).len() == parts@.len());
        if parts.len() < 2 {
            return None;
        }
        assert(texts(parts@)[1] == parts@[1]@);
        match decode(parts[1].as_str()) {
            Err(_) => None,
            Ok(bytes) => if !simple(&bytes) {
                None
            } else {
                match rewrite(text) {
                    Some(encoded) => Some(HostKey { encoded }),
                    None => None,
                }
            },
        }
    }
}

// ---------------------------------------------------------------------------
// Patterns
// ---------------------------------------------------------------------------

/// Whether a shell pattern matches a text, both in bytes: a star stands for any
/// bytes, for none or for one and some more; a question mark stands for any one
/// byte, and any other byte for itself.
pub open spec fn glob(pattern: Seq<u8>, text: Seq<u8>) -> bool
    decreases pattern.len() + text.len(),
{
    if pattern.len() == 0 {
        text.len() == 0
    } else if pattern[0] == 0x2a {
        glob(pattern.skip(1), text) || (text.len() > 0 && glob(pattern, text.skip(1)))
    } else if pattern[0] == 0x3f {
        text.len() > 0 && glob(pattern.skip(1), text.skip(1))
    } else {
        text.len() > 0 && text[0] == pattern[0] && glob(pattern.skip(1), text.skip(1))
    }
}

/// A star stands for any bytes: where the rest of a pattern matches the end of
/// a text, a star before it makes it match the whole.
pub proof fn star_stands_for_any_bytes(rest: Seq<u8>, skipped: Seq<u8>, text: Seq<u8>)
    requires
        glob(rest, text),
    ensures
        glob(seq![0x2au8] + rest, skipped + text),
    decreases skipped.len(),
{
    let pattern = seq![0x2au8] + rest;
    assert(pattern.skip(1) =~= rest);
    if skipped.len() == 0 {
        assert(skipped + text =~= text);
    } else {
        star_stands_for_any_bytes(rest, skipped.skip(1), text);
        assert((skipped + text).skip(1) =~= skipped.skip(1) + text);
    }
}

/// A text without stars and question marks is a pattern that only it matches.
pub proof fn plain_pattern_matches_itself(pattern: Seq<u8>, text: Seq<u8>)
    requires
        !pattern.contains(0x2a),
        !pattern.contains(0x3f),
    ensures
        glob(pattern, text) == (pattern == text),
    decreases pattern.len(),
{
    if pattern.len() == 0 {
        assert(pattern =~= Seq::<u8>::empty());
        if text.len() == 0 {
            assert(text =~= pattern);
        }
    } else {
        assert(pattern.contains(pattern[0]));
        let rest = pattern.skip(1);
        assert forall|b: u8| rest.contains(b) implies pattern.contains(b) by {
            let i = rest.index_of(b);
            assert(pattern[i + 1] == b);
        }
        if text.len() > 0 {
            plain_pattern_matches_itself(rest, text.skip(1));
            assert(pattern =~= seq![pattern[0]] + pattern.skip(1));
            assert(text =~= seq![text[0]] + text.skip(1));
        }
    }
}

/// Whether the pattern from `p` on matches the text from `t` on.
fn glob_from(pattern: &[u8], p: usize, text: &[u8], t: usize) -> (r: bool)
    requires
        p <= pattern@.len(),
        t <= text@.len(),
    ensures
        r == glob(pattern@.skip(p as int), text@.skip(t as int)),
    decreases pattern@.len() - p + text@.len() - t,
{
    let ghost rest = pattern@.skip(p as int);
    let ghost left = text@.skip(t as int);
    if p == pattern.len() {
        return t == text.len();
    }
    assert(rest[0] == pattern@[p as int]);
    assert(rest.skip(1) =~= pattern@.skip(p + 1));
    if t < text.len() {
        assert(left[0] == text@[t as int]);
        assert(left.skip(1) =~= text@.skip(t + 1));
    }
    match pattern[p] {
        0x2a => {
            glob_from(pattern, p + 1, text, t) || (t < text.len() && glob_from(
                pattern,
                p,
                text,
                t + 1,
            ))
        },
        0x3f => t < text.len() && glob_from(pattern, p + 1, text, t + 1),
        byte => t < text.len() && byte == text[t] && glob_from(pattern, p + 1, text, t + 1),
    }
}

/// Whether a shell pattern matches a text.
pub fn glob_match(pattern: &[u8], text: &[u8]) -> (r: bool)
    ensures
        r == glob(pattern@, text@),
{
    assert(pattern@.skip(0) =~= pattern@);
    assert(text@.skip(0) =~= text@);
    glob_from(pattern, 0, text, 0)
}

/// Whether `pattern` uses a star or a question mark.
pub open spec fn is_wild(pattern: Seq<char>) -> bool {
    pattern.contains('*') || pattern.contains('?')
}

/// Whether one pattern of a known host matches the name of a host. Hashed names
/// match nothing.
pub open spec fn pattern_matches(pattern: Seq<char>, host: Seq<char>) -> bool {
    if begins_with(pattern, "|1|"@) {
        false
    } else if is_wild(pattern) {
        glob(encode_utf8(pattern), encode_utf8(host))
    } else {
        pattern == host
    }
}

/// Whether one pattern of a known host matches the name of a host.
pub fn host_pattern_matches(pattern: &str, host: &str) -> (r: bool)
    ensures
        r == pattern_matches(pattern@, host@),
{
    if strip_prefix(pattern, "|1|").is_some() {
        return false;
    }
    if contains_char(pattern, '*') || contains_char(pattern, '?') {
        glob_match(pattern.as_bytes(), host.as_bytes())
    } else {
        same_text(pattern, host)
    }
}

/// Whether a pattern is one that excludes.
pub open spec fn is_negated(pattern: Seq<char>) -> bool {
    begins_with(pattern, "!"@)
}

/// Whether a pattern excludes the host.
pub open spec fn excludes(pattern: Seq<char>, host: Seq<char>) -> bool {
    is_negated(pattern) && pattern_matches(pattern.skip(1), host)
}

/// Whether a pattern admits the host.
pub open spec fn admits(pattern: Seq<char>, host: Seq<char>) -> bool {
    !is_negated(pattern) && pattern_matches(pattern, host)
}

/// Whether a list of patterns matches the host: one admits it and none excludes
/// it.
pub open spec fn listed(patterns: Seq<Seq<char>>, host: Seq<char>) -> bool {
    &&& exists|i: int| 0 <= i < patterns.len() && admits(#[trigger] patterns[i], host)
    &&& forall|i: int| 0 <= i < patterns.len() ==> !excludes(#[trigger] patterns[i], host)
}

/// Whether a list of patterns matches the host.
pub fn patterns_match(patterns: &Vec<String>, host: &str) -> (r: bool)
    ensures
        r == listed(texts(patterns@), host@),
{
    let mut matched = false;
    let mut i: usize = 0;
    let ghost all = texts(patterns@);
    while i < patterns.len()
        invariant
            i <= patterns@.len(),
            all == texts(patterns@),
            matched == exists|j: int| 0 <= j < i && admits(#[trigger] all[j], host@),
            forall|j: int| 0 <= j < i ==> !excludes(#[trigger] all[j], host@),
        decreases patterns@.len() - i,
    {
        assert(all[i as int] == patterns@[i as int]@);
        proof {
            reveal_strlit("!");
            assert("!"@.len() == 1);
        }
        match strip_prefix(patterns[i].as_str(), "!") {
            Some(negated) => {
                if host_pattern_matches(negated.as_str(), host) {
                    assert(excludes(all[i as int], host@));
                    return false;
                }
            },
            None => {
                if host_pattern_matches(patterns[i].as_str(), host) {
                    assert(admits(all[i as int], host@));
                    matched = true;
                }
            },
        }
        i += 1;
    }
    matched
}

// ---------------------------------------------------------------------------
// Lines
// ---------------------------------------------------------------------------

/// The words of a line before its comment.
pub open spec fn fields(line: Seq<char>) -> Seq<Seq<char>> {
    words(line.take(len_before(line, '#') as int))
}

/// Where the hosts stand among the words of a line: behind a marker, if there
/// is one.
pub open spec fn hosts_at(words: Seq<Seq<char>>) -> int {
    if words.len() > 0 && begins_with(words[0], "@"@) {
        1
    } else {
        0
    }
}

/// The hosts of a line and the text of its key, if the line has both.
pub open spec fn line_parts(line: Seq<char>) -> Option<(Seq<char>, Seq<char>)> {
    let f = fields(line);
    let h = hosts_at(f);
    if f.len() >= h + 3 {
        Some((f[h], f[h + 1] + " "@ + f[h + 2]))
    } else {
        None
    }
}

/// A host that is known, by its patterns and its key.
#[derive(Debug)]
pub struct KnownHost {
    pub patterns: Vec<String>,
    pub key: HostKey,
}

/// What a [`KnownHost`] says.
pub struct KnownHostView {
    pub patterns: Seq<Seq<char>>,
    pub key: Option<Seq<char>>,
}

impl View for KnownHost {
    type V = KnownHostView;

    open spec fn view(&self) -> KnownHostView {
        KnownHostView { patterns: texts(self.patterns@), key: self.key@ }
    }
}

/// The known host that a line gives, if it gives one.
pub open spec fn line_entry(line: Seq<char>) -> Option<KnownHostView> {
    match line_parts(line) {
        None => None,
        Some((hosts, text)) => match key_in(text) {
            None => None,
            Some(key) => Some(KnownHostView { patterns: pieces(hosts, ','), key }),
        },
    }
}

/// A line without its comment.
fn strip_known_hosts_comment(line: &str) -> (r: String)
    ensures
        r@ == line@.take(len_before(line@, '#') as int),
{
    let v = chars_of(line);
    let mut n: usize = 0;
    while n < v.len() && v[n] != '#'
        invariant
            n <= v@.len(),
            forall|j: int| 0 <= j < n ==> #[trigger] v@[j] != '#',
        decreases v@.len() - n,
    {
        n += 1;
    }
    proof {
        lemma_len_before(v@, '#', n as int);
    }
    let r = text_between(&v, 0, n);
    assert(r@ =~= line@.take(n as int));
    r
}

/// The hosts of a line and the text of its key, if the line has both.
pub fn known_hosts_line_parts(line: &str) -> (r: Option<(String, String)>)
    ensures
        match r {
            Some((hosts, text)) => line_parts(line@) == Some((hosts@, text@)),
            None => line_parts(line@) is None,
        },
{
    let bare = strip_known_hosts_comment(line);
    let parts = split_whitespace(bare.as_str());
    let ghost f = fields(line@);
    assert(f == texts(parts@) && f.len() == parts@.len());
    assert(forall|i: int| 0 <= i < parts@.len() ==> f[i] == (#[trigger] parts@[i])@);
    let mut h: usize = 0;
    if parts.len() > 0 && strip_prefix(parts[0].as_str(), "@").is_some() {
        h = 1;
    }
    if parts.len() < 3 || parts.len() - h < 3 {
        return None;
    }
    let text = cat3(parts[h + 1].as_str(), " ", parts[h + 2].as_str());
    Some((parts[h].clone(), text))
}

/// The known host that a line gives, if it gives one.
pub fn parse_known_hosts_line(line: &str) -> (r: Option<KnownHost>)
    ensures
        match r {
            Some(entry) => line_entry(line@) == Some(entry@),
            None => line_entry(line@) is None,
        },
{
    match known_hosts_line_parts(line) {
        None => None,
        Some((hosts, text)) => match HostKey::from_openssh(text.as_str()) {
            None => None,
            Some(key) => Some(KnownHost { patterns: split_on(hosts.as_str(), ','), key }),
        },
    }
}

/// The known hosts that lines give, in order.
pub open spec fn line_entries(lines: Seq<Seq<char>>) -> Seq<KnownHostView>
    decreases lines.len(),
{
    if lines.len() == 0 {
        Seq::empty()
    } else {
        match line_entry(lines.last()) {
            Some(entry) => line_entries(lines.drop_last()).push(entry),
            None => line_entries(lines.drop_last()),
        }
    }
}

/// The known hosts in the contents of a file.
pub open spec fn known_in(contents: Seq<char>) -> Seq<KnownHostView> {
    line_entries(lines_of(contents))
}

/// What known hosts say.
pub open spec fn entry_views(entries: Seq<KnownHost>) -> Seq<KnownHostView> {
    Seq::new(entries.len(), |i: int| entries[i]@)
}

/// The known hosts in the contents of a file.
pub fn known_hosts(contents: &str) -> (r: Vec<KnownHost>)
    ensures
        entry_views(r@) == known_in(contents@),
{
    let all = lines(contents);
    let ghost texts_of_all = texts(all@);
    let mut out: Vec<KnownHost> = Vec::new();
    let mut i: usize = 0;
    assert(entry_views(out@) =~= line_entries(texts_of_all.take(0)));
    while i < all.len()
        invariant
            i <= all@.len(),
            texts_of_all == texts(all@),
            entry_views(out@) == line_entries(texts_of_all.take(i as int)),
        decreases all@.len() - i,
    {
        let ghost done = texts_of_all.take(i + 1);
        assert(done.drop_last() =~= texts_of_all.take(i as int));
        assert(done.last() == all@[i as int]@);
        if let Some(entry) = parse_known_hosts_line(all[i].as_str()) {
            assert(entry_views(out@.push(entry)) =~= entry_views(out@).push(entry@));
            out.push(entry);
        }
        i += 1;
    }
    assert(texts_of_all.take(i as int) =~= texts_of_all);
    out
}

// ---------------------------------------------------------------------------
// Looking a host up
// ---------------------------------------------------------------------------

/// The names under which a host is known: its own, or with the port where that
/// is not the default.
pub open spec fn host_name(host: Seq<char>, port: u16) -> Seq<char> {
    if port == DEFAULT_PORT {
        host
    } else {
        "["@ + host + "]:"@ + decimal(port as nat)
    }
}

/// The names under which a host is known.
pub fn known_hosts_patterns(host: &str, port: u16) -> (r: Vec<String>)
    ensures
        texts(r@) == seq![host_name(host@, port)],
{
    let name = if port == DEFAULT_PORT {
        host.to_owned()
    } else {
        cat4("[", host, "]:", decimal_text(port as u128).as_str())
    };
    let mut r: Vec<String> = Vec::new();
    r.push(name);
    assert(texts(r@) =~= seq![host_name(host@, port)]);
    r
}

/// What known hosts say of a host.
pub enum Verdict {
    /// No known host matches.
    Unknown,
    /// The first that matches has the key.
    Known,
    /// The first that matches has another key.
    Mismatch,
    /// The key of the first that matches cannot be written.
    Failed(Error),
}

/// Whether a known host matches one of the names.
pub open spec fn matches_any(entry: KnownHostView, hosts: Seq<Seq<char>>) -> bool {
    exists|i: int| 0 <= i < hosts.len() && listed(entry.patterns, #[trigger] hosts[i])
}

/// What known hosts say of a host with one of the names and the key `wanted`.
/// The first that matches decides.
pub open spec fn verdict(
    known: Seq<KnownHostView>,
    hosts: Seq<Seq<char>>,
    wanted: Seq<char>,
) -> Verdict
    decreases known.len(),
{
    if known.len() == 0 {
        Verdict::Unknown
    } else if !matches_any(known[0], hosts) {
        verdict(known.skip(1), hosts, wanted)
    } else {
        match canonical(known[0].key) {
            Err(e) => Verdict::Failed(e),
            Ok(key) => if key == wanted {
                Verdict::Known
            } else {
                Verdict::Mismatch
            },
        }
    }
}

/// What a lookup answers.
pub open spec fn looked_up(
    known: Seq<KnownHostView>,
    hosts: Seq<Seq<char>>,
    key: Option<Seq<char>>,
    r: Result<bool, Error>,
) -> bool {
    match canonical(key) {
        Err(e) => r == Err::<bool, Error>(e),
        Ok(wanted) => match verdict(known, hosts, wanted) {
            Verdict::Unknown => r == Ok::<bool, Error>(false),
            Verdict::Known => r == Ok::<bool, Error>(true),
            Verdict::Mismatch => r matches Err(Error::HostKeyMismatch(names)) && names@ == joined(
                hosts,
                ","@,
            ),
            Verdict::Failed(e) => r == Err::<bool, Error>(e),
        },
    }
}

fn any_host_matches(entry: &KnownHost, hosts: &Vec<String>) -> (r: bool)
    ensures
        r == matches_any(entry@, texts(hosts@)),
{
    let mut i: usize = 0;
    let ghost all = texts(hosts@);
    while i < hosts.len()
        invariant
            i <= hosts@.len(),
            all == texts(hosts@),
            forall|j: int| 0 <= j < i ==> !listed(entry@.patterns, #[trigger] all[j]),
        decreases hosts@.len() - i,
    {
        assert(all[i as int] == hosts@[i as int]@);
        if patterns_match(&entry.patterns, hosts[i].as_str()) {
            assert(listed(entry@.patterns, all[i as int]));
            return true;
        }
        i += 1;
    }
    false
}

/// Whether the host is known with the key. A host that is known with another
/// key is an error.
pub fn lookup(known: &Vec<KnownHost>, hosts: &Vec<String>, key: &HostKey) -> (r: Result<bool, Error>)
    ensures
        looked_up(entry_views(known@), texts(hosts@), key@, r),
{
    let wanted = match canonical_public_key(key) {
        Ok(wanted) => wanted,
        Err(e) => return Err(e),
    };
    let ghost all = entry_views(known@);
    let ghost names = texts(hosts@);
    let mut i: usize = 0;
    assert(all.skip(0) =~= all);
    while i < known.len()
        invariant
            i <= known@.len(),
            all == entry_views(known@),
            names == texts(hosts@),
            canonical(key@) == Ok::<Seq<char>, Error>(wanted@),
            verdict(all.skip(i as int), names, wanted@) == verdict(all, names, wanted@),
        decreases known@.len() - i,
    {
        let ghost rest = all.skip(i as int);
        assert(rest[0] == known@[i as int]@);
        assert(rest.skip(1) =~= all.skip(i + 1));
        if any_host_matches(&known[i], hosts) {
            let known_key = match canonical_public_key(&known[i].key) {
                Ok(k) => k,
                Err(e) => return Err(e),
            };
            if same_text(known_key.as_str(), wanted.as_str()) {
                return Ok(true);
            }
            return Err(Error::HostKeyMismatch(join(hosts, ",")));
        }
        i += 1;
    }
    Ok(false)
}

/// Whether the contents of a file of known hosts hold the host with the key. A
/// host that is known with another key is an error.
pub fn known_hosts_has_key(
    contents: &str,
    host_patterns: &Vec<String>,
    server_public_key: &HostKey,
) -> (r: Result<bool, Error>)
    ensures
        looked_up(known_in(contents@), texts(host_patterns@), server_public_key@, r),
{
    let known = known_hosts(contents);
    lookup(&known, host_patterns, server_public_key)
}

// ---------------------------------------------------------------------------
// Trust on first use
// ---------------------------------------------------------------------------

/// The contents of a file of known hosts with one host more.
pub open spec fn appended(
    existing: Seq<char>,
    hosts: Seq<Seq<char>>,
    key: Seq<char>,
) -> Seq<char> {
    existing + (if existing.len() > 0 && existing.last() != '\n' {
        "\n"@
    } else {
        ""@
    }) + (joined(hosts, ","@) + " "@ + key + "\n"@)
}

/// The contents of a file of known hosts with one host more.
pub fn append_known_host(existing: &str, host_patterns: &Vec<String>, key: &str) -> (r: String)
    ensures
        r@ == appended(existing@, texts(host_patterns@), key@),
{
    let v = chars_of(existing);
    let n: usize = v.len();
    let separator = if n > 0 && v[n - 1] != '\n' {
        "\n"
    } else {
        ""
    };
    let names = join(host_patterns, ",");
    let line = cat4(names.as_str(), " ", key, "\n");
    cat3(existing, separator, line.as_str())
}

/// What to do about the key of a host.
#[derive(Debug)]
pub enum Trust {
    /// The host is known by this key.
    Known,
    /// The host was not known. It is from now on: these are the contents that
    /// the file of known hosts is to have.
    Remember(String),
}

/// What is decided about the key of a host, given the file of known hosts.
pub open spec fn trusted(
    existing: Seq<char>,
    host: Seq<char>,
    port: u16,
    key: Option<Seq<char>>,
    r: Result<Trust, Error>,
) -> bool {
    let hosts = seq![host_name(host, port)];
    match r {
        Ok(Trust::Known) => looked_up(known_in(existing), hosts, key, Ok(true)),
        Ok(Trust::Remember(contents)) => {
            &&& looked_up(known_in(existing), hosts, key, Ok(false))
            &&& canonical(key) matches Ok(wanted)
            &&& contents@ == appended(existing, hosts, wanted)
        },
        Err(e) => looked_up(known_in(existing), hosts, key, Err(e)),
    }
}

/// Decides about the key of a host: a host that is known by the key is trusted;
/// a host that is known by another is not; one that is not known is trusted,
/// and remembered.
pub fn verify_or_trust_host_key(
    existing: &str,
    host: &str,
    port: u16,
    server_public_key: &HostKey,
) -> (r: Result<Trust, Error>)
    ensures
        trusted(existing@, host@, port, server_public_key@, r),
{
    let host_patterns = known_hosts_patterns(host, port);
    match known_hosts_has_key(existing, &host_patterns, server_public_key) {
        Err(e) => Err(e),
        Ok(true) => Ok(Trust::Known),
        Ok(false) => match canonical_public_key(server_public_key) {
            Err(e) => Err(e),
            Ok(key) => Ok(
                Trust::Remember(append_known_host(existing, &host_patterns, key.as_str())),
            ),
        },
    }
}

// ---------------------------------------------------------------------------
// Laws
// ---------------------------------------------------------------------------

/// Whether a name stands for itself in a file of known hosts: it is one word
/// that is neither taken for a comment nor for a marker and, read as patterns,
/// matches itself.
pub open spec fn names_itself(name: Seq<char>) -> bool {
    &&& is_word(name)
    &&& !name.contains('#')
    &&& !begins_with(name, "@"@)
    &&& listed(pieces(name, ','), name)
}

/// A pattern matches itself, whatever stars and question marks it has.
pub proof fn pattern_matches_itself(pattern: Seq<u8>)
    ensures
        glob(pattern, pattern),
    decreases pattern.len(),
{
    if pattern.len() > 0 {
        let rest = pattern.skip(1);
        pattern_matches_itself(rest);
        if pattern[0] == 0x2a {
            star_stands_for_any_bytes(rest, seq![pattern[0]], rest);
            assert(seq![0x2au8] + rest =~= pattern);
            assert(seq![pattern[0]] + rest =~= pattern);
        }
    }
}

/// An ordinary name stands for itself: a word that does not list several
/// patterns, and does not begin like a marker, an exclusion or a hashed name.
pub proof fn ordinary_name_names_itself(name: Seq<char>)
    requires
        is_word(name),
        !name.contains('#'),
        !name.contains(','),
        !begins_with(name, "@"@),
        !begins_with(name, "!"@),
        !begins_with(name, "|1|"@),
    ensures
        names_itself(name),
{
    assert forall|j: int| 0 <= j < name.len() implies #[trigger] name[j] != ',' by {
        assert(name.contains(name[j]));
    }
    lemma_len_before(name, ',', name.len() as int);
    let patterns = pieces(name, ',');
    assert(patterns =~= seq![name]);
    pattern_matches_itself(encode_utf8(name));
    assert(admits(patterns[0], name));
}

proof fn lemma_entries_of_both(a: Seq<Seq<char>>, b: Seq<Seq<char>>)
    ensures
        line_entries(a + b) == line_entries(a) + line_entries(b),
    decreases b.len(),
{
    if b.len() == 0 {
        assert(a + b =~= a);
        assert(line_entries(a) + line_entries(b) =~= line_entries(a));
    } else {
        assert((a + b).drop_last() =~= a + b.drop_last());
        assert((a + b).last() == b.last());
        lemma_entries_of_both(a, b.drop_last());
        assert(line_entries(a + b) =~= line_entries(a) + line_entries(b));
    }
}

proof fn lemma_return_does_not_count(line: Seq<char>)
    ensures
        line_entry(without_return(line)) == line_entry(line),
{
    let t = without_return(line);
    if t != line {
        let stop = is_char('#');
        lemma_prefix_len_is(line, stop);
        let n = len_before(line, '#') as int;
        assert(line =~= t.push('\r'));
        if n < line.len() {
            assert(stop(line[n]));
            assert(line[n] == '#');
            assert(n < t.len());
            assert forall|j: int| 0 <= j < n implies #[trigger] t[j] != '#' by {
                assert(t[j] == line[j] && !stop(line[j]));
            }
            lemma_len_before(t, '#', n);
            assert(t.take(n) =~= line.take(n));
        } else {
            assert forall|j: int| 0 <= j < t.len() implies #[trigger] t[j] != '#' by {
                assert(t[j] == line[j] && !stop(line[j]));
            }
            lemma_len_before(t, '#', t.len() as int);
            assert(t.take(t.len() as int) =~= t);
            assert(line.take(n) =~= line);
            lemma_trailing_white(t, '\r');
        }
    }
}

/// A name and a key on a line of their own make the known host that they
/// describe.
proof fn lemma_new_line(name: Seq<char>, algorithm: Seq<char>, data: Seq<char>)
    requires
        names_itself(name),
        is_word(algorithm),
        is_word(data),
        is_key_word(algorithm),
        is_key_word(data),
        key_in(algorithm + " "@ + data) == Some(Some(algorithm + " "@ + data)),
    ensures
        line_entry(name + " "@ + (algorithm + " "@ + data)) == Some(
            KnownHostView { patterns: pieces(name, ','), key: Some(algorithm + " "@ + data) },
        ),
        words(algorithm + " "@ + data) == seq![algorithm, data],
        !(name + " "@ + (algorithm + " "@ + data)).contains('\n'),
        (name + " "@ + (algorithm + " "@ + data)).last() != '\r',
{
    reveal_strlit(" ");
    assert(" "@ =~= seq![' ']);
    let empty = Seq::<char>::empty();
    let key = algorithm + " "@ + data;
    let line = name + " "@ + key;
    lemma_first_word(data, empty);
    assert(data + empty =~= data);
    assert(words(data) =~= seq![data]);
    lemma_leading_white(' ', data);
    lemma_first_word(algorithm, " "@ + data);
    assert(algorithm + (" "@ + data) =~= key);
    assert(words(key) =~= seq![algorithm, data]);
    lemma_leading_white(' ', key);
    lemma_first_word(name, " "@ + key);
    assert(name + (" "@ + key) =~= line);
    assert(words(line) =~= seq![name, algorithm, data]);
    assert forall|j: int| 0 <= j < line.len() implies #[trigger] line[j] != '#' && line[j]
        != '\n' by {
        let n = name.len() as int;
        let a = algorithm.len() as int;
        if j < n {
            assert(name.contains(name[j]) && !is_white(name[j]));
        } else if j == n {
        } else if j < n + 1 + a {
            assert(line[j] == algorithm[j - n - 1]);
            assert(is_key_char(algorithm[j - n - 1]));
        } else if j == n + 1 + a {
        } else {
            assert(line[j] == data[j - n - 2 - a]);
            assert(is_key_char(data[j - n - 2 - a]));
        }
    }
    lemma_len_before(line, '#', line.len() as int);
    assert(line.take(line.len() as int) =~= line);
    assert(fields(line) == seq![name, algorithm, data]);
    assert(line.last() == data.last());
    assert(is_key_char(data[data.len() - 1]));
}

proof fn lemma_verdict_pushed(
    known: Seq<KnownHostView>,
    entry: KnownHostView,
    hosts: Seq<Seq<char>>,
    key: Seq<char>,
    other: Seq<char>,
)
    requires
        verdict(known, hosts, key) is Unknown,
    ensures
        verdict(known.push(entry), hosts, other) == verdict(seq![entry], hosts, other),
    decreases known.len(),
{
    if known.len() == 0 {
        assert(known.push(entry) =~= seq![entry]);
    } else {
        assert(!matches_any(known[0], hosts));
        assert(known.push(entry)[0] == known[0]);
        assert(known.push(entry).skip(1) =~= known.skip(1).push(entry));
        lemma_verdict_pushed(known.skip(1), entry, hosts, key, other);
    }
}

/// The file of known hosts with one host more holds what it held, and the host
/// behind it.
pub proof fn appending_keeps_known_hosts(
    existing: Seq<char>,
    name: Seq<char>,
    written: Seq<char>,
    key: Seq<char>,
)
    requires
        names_itself(name),
        reads_back(written),
        canonical(Some(written)) == Ok::<Seq<char>, Error>(key),
    ensures
        known_in(appended(existing, seq![name], key)) == known_in(existing).push(
            KnownHostView { patterns: pieces(name, ','), key: Some(key) },
        ),
{
    let algorithm = words(written)[0];
    let data = words(written)[1];
    let line = name + " "@ + key;
    reveal_strlit("\n");
    reveal_strlit("");
    assert("\n"@ =~= seq!['\n']);
    assert(""@ =~= Seq::<char>::empty());
    lemma_words_are_words(written);
    lemma_new_line(name, algorithm, data);
    assert(joined(seq![name], ","@) == name);
    let tail = line.push('\n');
    assert(name + " "@ + key + "\n"@ =~= tail);
    let ended = existing + (if existing.len() > 0 && existing.last() != '\n' {
        "\n"@
    } else {
        ""@
    });
    assert(appended(existing, seq![name], key) =~= ended + tail);
    assert(line_entries(lines_of(ended)) == known_in(existing)) by {
        if existing.len() > 0 && existing.last() != '\n' {
            assert(ended =~= existing.push('\n'));
            lemma_last_line_ended(existing);
            let all = lines_of(existing);
            lemma_return_does_not_count(all.last());
            let changed = all.drop_last().push(without_return(all.last()));
            assert(changed.drop_last() =~= all.drop_last());
        } else {
            assert(ended =~= existing);
        }
    }
    lemma_lines_of_both(ended, tail);
    lemma_one_line(line);
    lemma_entries_of_both(lines_of(ended), lines_of(tail));
    let one = seq![line];
    assert(lines_of(tail) =~= one);
    assert(one.drop_last() =~= Seq::<Seq<char>>::empty());
    assert(line_entries(one.drop_last()) =~= Seq::<KnownHostView>::empty());
    assert(one.last() == line);
    let entry = KnownHostView { patterns: pieces(name, ','), key: Some(key) };
    assert(line_entries(one) =~= seq![entry]);
    assert(known_in(existing) + seq![entry] =~= known_in(existing).push(entry));
}

/// A host that was not known and has been remembered is known from then on by
/// the key that it presented, and by no other: with the same key a lookup
/// succeeds, and with another it fails.
pub proof fn remembered_host_is_known(
    existing: Seq<char>,
    host: Seq<char>,
    port: u16,
    written: Seq<char>,
    key: Seq<char>,
    other: Seq<char>,
)
    requires
        names_itself(host_name(host, port)),
        reads_back(written),
        canonical(Some(written)) == Ok::<Seq<char>, Error>(key),
        verdict(known_in(existing), seq![host_name(host, port)], key) is Unknown,
    ensures
        verdict(
            known_in(appended(existing, seq![host_name(host, port)], key)),
            seq![host_name(host, port)],
            key,
        ) is Known,
        other != key ==> verdict(
            known_in(appended(existing, seq![host_name(host, port)], key)),
            seq![host_name(host, port)],
            other,
        ) is Mismatch,
{
    let name = host_name(host, port);
    let hosts = seq![name];
    let known = known_in(existing);
    let entry = KnownHostView { patterns: pieces(name, ','), key: Some(key) };
    appending_keeps_known_hosts(existing, name, written, key);
    lemma_verdict_pushed(known, entry, hosts, key, key);
    lemma_verdict_pushed(known, entry, hosts, key, other);
    assert(hosts[0] == name);
    assert(matches_any(seq![entry][0], hosts));
    lemma_words_are_words(written);
    lemma_new_line(name, words(written)[0], words(written)[1]);
}

/// A host that is trusted on first use is remembered: the next time it is known
/// by the same key, and refused with any other.
pub proof fn first_use_decides(
    existing: Seq<char>,
    host: Seq<char>,
    port: u16,
    written: Seq<char>,
    contents: String,
    other: Seq<char>,
    same_key: Result<Trust, Error>,
    other_key: Result<Trust, Error>,
)
    requires
        names_itself(host_name(host, port)),
        reads_back(written),
        trusted(existing, host, port, Some(written), Ok(Trust::Remember(contents))),
        canonical(Some(other)) is Ok,
        canonical(Some(other)) != canonical(Some(written)),
        trusted(contents@, host, port, Some(written), same_key),
        trusted(contents@, host, port, Some(other), other_key),
    ensures
        same_key == Ok::<Trust, Error>(Trust::Known),
        other_key matches Err(Error::HostKeyMismatch(names)) && names@ == host_name(host, port),
{
    let name = host_name(host, port);
    let key = canonical(Some(written))->Ok_0;
    remembered_host_is_known(
        existing,
        host,
        port,
        written,
        key,
        canonical(Some(other))->Ok_0,
    );
    assert(joined(seq![name], ","@) == name);
}

/// A name with a port stands for itself as soon as the host holds no white space,
/// no `#` and no comma.
pub proof fn host_with_port_names_itself(host: Seq<char>, port: u16)
    requires
        port != DEFAULT_PORT,
        forall|i: int|
            0 <= i < host.len() ==> !is_white(#[trigger] host[i]) && host[i] != '#' && host[i]
                != ',',
    ensures
        names_itself(host_name(host, port)),
{
    let name = host_name(host, port);
    let digits = decimal(port as nat);
    reveal_strlit("[");
    reveal_strlit("]:");
    reveal_strlit("@");
    reveal_strlit("!");
    reveal_strlit("|1|");
    lemma_decimal_digits(port as nat);
    assert("["@.len() == 1 && "]:"@.len() == 2);
    assert(name[0] == "["@[0]);
    assert("["@[0] == '[' && "]:"@[0] == ']' && "]:"@[1] == ':');
    assert forall|i: int| 0 <= i < name.len() implies !is_white(#[trigger] name[i]) && name[i]
        != '#' && name[i] != ',' by {
        let n = host.len() as int;
        if i == 0 {
        } else if i < 1 + n {
            assert(name[i] == host[i - 1]);
        } else if i == 1 + n {
            assert(name[i] == "]:"@[0]);
        } else if i == 2 + n {
            assert(name[i] == "]:"@[1]);
        } else {
            assert(name[i] == digits[i - n - 3]);
            assert(is_digit(digits[i - n - 3]));
        }
    }
    assert("@"@.len() == 1 && "@"@[0] == '@');
    assert("!"@.len() == 1 && "!"@[0] == '!');
    assert("|1|"@.len() == 3 && "|1|"@[0] == '|');
    assert(begins_with(name, "@"@) ==> name.take(1)[0] == '@');
    assert(begins_with(name, "!"@) ==> name.take(1)[0] == '!');
    assert(begins_with(name, "|1|"@) ==> name.take(3)[0] == '|');
    ordinary_name_names_itself(name);
}

/// Whether a known host matches a name: one of its patterns does, and none that
/// excludes does. A pattern that begins with `!` excludes what the rest of it
/// matches.
pub proof fn one_pattern_admits_and_none_excludes(patterns: Seq<Seq<char>>, host: Seq<char>)
    ensures
        listed(patterns, host) <==> {
            &&& exists|i: int|
                0 <= i < patterns.len() && !((#[trigger] patterns[i]).len() > 0 && patterns[i][0]
                    == '!') && pattern_matches(patterns[i], host)
            &&& forall|i: int|
                0 <= i < patterns.len() && (#[trigger] patterns[i]).len() > 0 && patterns[i][0]
                    == '!' ==> !pattern_matches(patterns[i].skip(1), host)
        },
{
    reveal_strlit("!");
    assert("!"@.len() == 1 && "!"@[0] == '!');
    assert forall|p: Seq<char>| #[trigger] is_negated(p) == (p.len() > 0 && p[0] == '!') by {
        if p.len() > 0 && p[0] == '!' {
            assert(p.take(1) =~= "!"@);
        }
        if is_negated(p) {
            assert(p.take(1)[0] == '!');
        }
    }
    if listed(patterns, host) {
        let i = choose|i: int| 0 <= i < patterns.len() && admits(#[trigger] patterns[i], host);
        assert(!is_negated(patterns[i]));
        assert forall|i: int|
            0 <= i < patterns.len() && (#[trigger] patterns[i]).len() > 0 && patterns[i][0]
                == '!' implies !pattern_matches(patterns[i].skip(1), host) by {
            assert(is_negated(patterns[i]));
            assert(!excludes(patterns[i], host));
        }
    }
    if (exists|i: int|
        0 <= i < patterns.len() && !((#[trigger] patterns[i]).len() > 0 && patterns[i][0] == '!')
            && pattern_matches(patterns[i], host)) && (forall|i: int|
        0 <= i < patterns.len() && (#[trigger] patterns[i]).len() > 0 && patterns[i][0] == '!'
            ==> !pattern_matches(patterns[i].skip(1), host)) {
        let i = choose|i: int|
            0 <= i < patterns.len() && !((#[trigger] patterns[i]).len() > 0 && patterns[i][0]
                == '!') && pattern_matches(patterns[i], host);
        assert(!is_negated(patterns[i]));
        assert(admits(patterns[i], host));
        assert forall|i: int| 0 <= i < patterns.len() implies !excludes(
            #[trigger] patterns[i],
            host,
        ) by {
            assert(is_negated(patterns[i]) == (patterns[i].len() > 0 && patterns[i][0] == '!'));
        }
    }
}

/// A pattern without stars and question marks matches only itself; a hashed one
/// matches nothing.
pub proof fn patterns_match_names(pattern: Seq<char>, host: Seq<char>)
    ensures
        ({
            let hashed = pattern.len() >= 3 && pattern[0] == '|' && pattern[1] == '1' && pattern[2]
                == '|';
            let wild = pattern.contains('*') || pattern.contains('?');
            &&& hashed ==> !pattern_matches(pattern, host)
            &&& !hashed && !wild ==> pattern_matches(pattern, host) == (pattern == host)
            &&& !hashed && wild ==> pattern_matches(pattern, host) == glob(
                encode_utf8(pattern),
                encode_utf8(host),
            )
        }),
{
    reveal_strlit("|1|");
    assert("|1|"@.len() == 3 && "|1|"@[0] == '|' && "|1|"@[1] == '1' && "|1|"@[2] == '|');
    let hashed = pattern.len() >= 3 && pattern[0] == '|' && pattern[1] == '1' && pattern[2] == '|';
    if hashed {
        assert(pattern.take(3) =~= "|1|"@);
    }
    if begins_with(pattern, "|1|"@) {
        let head = pattern.take(3);
        assert(head[0] == '|' && head[1] == '1' && head[2] == '|');
    }
}

/// A star stands for any number of bytes, a question mark for exactly one, any
/// other byte for itself; and a pattern matches a whole text.
pub proof fn wildcards_stand_for_bytes(rest: Seq<u8>, byte: u8, text: Seq<u8>)
    ensures
        glob(Seq::empty(), text) <==> text.len() == 0,
        glob(seq![0x2au8] + rest, text) <==> exists|k: int|
            0 <= k <= text.len() && glob(rest, #[trigger] text.skip(k)),
        glob(seq![0x3fu8] + rest, text) <==> text.len() > 0 && glob(rest, text.skip(1)),
        byte != 0x2a && byte != 0x3f ==> (glob(seq![byte] + rest, text) <==> text.len() > 0
            && text[0] == byte && glob(rest, text.skip(1))),
    decreases text.len(),
{
    assert((seq![0x2au8] + rest).skip(1) =~= rest);
    assert((seq![0x3fu8] + rest).skip(1) =~= rest);
    assert((seq![byte] + rest).skip(1) =~= rest);
    let star = seq![0x2au8] + rest;
    if text.len() > 0 {
        let tail = text.skip(1);
        wildcards_stand_for_bytes(rest, byte, tail);
        if glob(star, text) {
            if glob(rest, text) {
                assert(text.skip(0) =~= text);
            } else {
                let k = choose|k: int| 0 <= k <= tail.len() && glob(rest, #[trigger] tail.skip(k));
                assert(tail.skip(k) =~= text.skip(k + 1));
            }
        }
        if exists|k: int| 0 <= k <= text.len() && glob(rest, #[trigger] text.skip(k)) {
            let k = choose|k: int| 0 <= k <= text.len() && glob(rest, #[trigger] text.skip(k));
            if k == 0 {
                assert(text.skip(0) =~= text);
            } else {
                assert(tail.skip(k - 1) =~= text.skip(k));
                assert(glob(star, tail));
            }
        }
    } else {
        assert(text.skip(0) =~= text);
    }
}

proof fn lemma_verdict_is_of_the_first(
    known: Seq<KnownHostView>,
    hosts: Seq<Seq<char>>,
    wanted: Seq<char>,
    i: int,
)
    requires
        0 <= i <= known.len(),
        forall|j: int| 0 <= j < i ==> !matches_any(#[trigger] known[j], hosts),
        i < known.len() ==> matches_any(known[i], hosts),
    ensures
        i == known.len() ==> verdict(known, hosts, wanted) is Unknown,
        i < known.len() ==> verdict(known, hosts, wanted) == verdict(seq![known[i]], hosts, wanted),
    decreases known.len(),
{
    if i < known.len() {
        assert(seq![known[i]][0] == known[i]);
    }
    if known.len() > 0 && i > 0 {
        let rest = known.skip(1);
        assert forall|j: int| 0 <= j < i - 1 implies !matches_any(#[trigger] rest[j], hosts) by {
            assert(rest[j] == known[j + 1]);
        }
        assert(!matches_any(known[0], hosts));
        lemma_verdict_is_of_the_first(rest, hosts, wanted, i - 1);
        if i < known.len() {
            assert(rest[i - 1] == known[i]);
        }
    }
}

/// The first known host that matches decides, whatever stands behind it: with the
/// key that it has, the host is known; with any other, the lookup is refused.
/// Where none matches, the host is not known, and that is no error.
pub proof fn the_first_match_decides(
    known: Seq<KnownHostView>,
    hosts: Seq<Seq<char>>,
    key: Option<Seq<char>>,
    r: Result<bool, Error>,
    i: int,
    wanted: Seq<char>,
    found: Seq<char>,
)
    requires
        looked_up(known, hosts, key, r),
        canonical(key) == Ok::<Seq<char>, Error>(wanted),
        0 <= i <= known.len(),
        forall|j: int, h: int|
            0 <= j < i && 0 <= h < hosts.len() ==> !listed(
                (#[trigger] known[j]).patterns,
                #[trigger] hosts[h],
            ),
        i < known.len() ==> (exists|h: int|
            0 <= h < hosts.len() && listed(known[i].patterns, #[trigger] hosts[h])) && canonical(
            known[i].key,
        ) == Ok::<Seq<char>, Error>(found),
    ensures
        i == known.len() ==> r == Ok::<bool, Error>(false),
        i < known.len() && found == wanted ==> r == Ok::<bool, Error>(true),
        i < known.len() && found != wanted ==> (r matches Err(Error::HostKeyMismatch(names))
            && names@ == joined(hosts, ","@)),
{
    assert forall|j: int| 0 <= j < i implies !matches_any(#[trigger] known[j], hosts) by {
        if matches_any(known[j], hosts) {
            let h = choose|h: int|
                0 <= h < hosts.len() && listed(known[j].patterns, #[trigger] hosts[h]);
            assert(!listed(known[j].patterns, hosts[h]));
        }
    }
    lemma_verdict_is_of_the_first(known, hosts, wanted, i);
    if i < known.len() {
        assert(seq![known[i]][0] == known[i]);
    }
}

/// The known hosts of a file are those of its lines, in their order.
pub proof fn files_are_read_line_by_line(line: Seq<char>, rest: Seq<char>)
    requires
        !line.contains('\n'),
    ensures
        line_entry(line) is Some ==> known_in(line.push('\n') + rest) == seq![line_entry(line)->0]
            + known_in(rest),
        line_entry(line) is None ==> known_in(line.push('\n') + rest) == known_in(rest),
        known_in(Seq::empty()).len() == 0,
{
    let none = Seq::<char>::empty();
    let bare = without_return(line);
    lemma_return_does_not_count(line);
    line_ends_are_no_part_of_lines(bare, rest);
    line_ends_are_no_part_of_lines(line, rest);
    let n = line.len() as int;
    assert(lines_of(line.push('\n') + rest) == seq![bare] + lines_of(rest)) by {
        if line.len() > 0 && line.last() == '\r' {
            assert(bare.push('\r') =~= line);
            assert(!bare.contains('\n')) by {
                if bare.contains('\n') {
                    let i = bare.index_of('\n');
                    assert(line[i] == '\n');
                }
            }
        }
    }
    let one = seq![bare];
    lemma_entries_of_both(one, lines_of(rest));
    assert(one.drop_last() =~= Seq::<Seq<char>>::empty());
    assert(line_entries(one.drop_last()) =~= Seq::<KnownHostView>::empty());
    assert(one.last() == bare);
    match line_entry(line) {
        Some(entry) => {
            assert(line_entries(one) =~= seq![entry]);
        },
        None => {
            assert(line_entries(one) =~= Seq::<KnownHostView>::empty());
            assert(line_entries(one) + known_in(rest) =~= known_in(rest));
        },
    }
    assert(lines_of(none).len() == 0);
}

/// A line gives hosts and a key where it has both: the first word, behind a
/// marker if there is one, and the two behind it. What follows them, and all
/// from a `#` on, does not count. A line with fewer words gives nothing.
pub proof fn lines_give_hosts_and_a_key(
    marker: Seq<char>,
    hosts: Seq<char>,
    algorithm: Seq<char>,
    data: Seq<char>,
    more: Seq<char>,
    comment: Seq<char>,
)
    requires
        is_word(marker) && marker[0] == '@',
        is_word(hosts) && hosts[0] != '@',
        is_word(algorithm),
        is_word(data),
        !marker.contains('#') && !hosts.contains('#') && !algorithm.contains('#') && !data.contains(
            '#',
        ) && !more.contains('#'),
        more.len() > 0 ==> is_white(more[0]),
        comment.len() > 0 ==> comment[0] == '#',
    ensures
        ({
            let key = algorithm + seq![' '] + data;
            let line = hosts + seq![' '] + key + more + comment;
            &&& line_parts(line) == Some((hosts, key))
            &&& line_parts(marker + seq![' '] + line) == Some((hosts, key))
        }),
        line_parts(hosts + seq![' '] + algorithm + comment) is None,
        line_parts(hosts + comment) is None,
        line_parts(comment) is None,
{
    reveal_strlit(" ");
    reveal_strlit("@");
    assert(" "@ =~= seq![' ']);
    assert("@"@ =~= seq!['@']);
    let key = algorithm + seq![' '] + data;
    let body = hosts + seq![' '] + key + more;
    let sep = seq![' '];
    let none = Seq::<char>::empty();
    // The words.
    lemma_first_word(data, more);
    lemma_leading_white(' ', data + more);
    lemma_first_word(algorithm, sep + (data + more));
    lemma_leading_white(' ', algorithm + (sep + (data + more)));
    lemma_first_word(hosts, sep + (algorithm + (sep + (data + more))));
    assert(body =~= hosts + (sep + (algorithm + (sep + (data + more)))));
    let found = words(body);
    assert(found =~= seq![hosts, algorithm, data] + words(more));
    lemma_leading_white(' ', body);
    lemma_first_word(marker, sep + body);
    let marked = marker + sep + body;
    assert(marked =~= marker + (sep + body));
    assert(words(marked) =~= seq![marker, hosts, algorithm, data] + words(more));
    assert(words(none) =~= Seq::<Seq<char>>::empty());
    lemma_first_word(algorithm, none);
    assert(algorithm + none =~= algorithm);
    lemma_leading_white(' ', algorithm);
    lemma_first_word(hosts, sep + algorithm);
    let two = hosts + sep + algorithm;
    assert(two =~= hosts + (sep + algorithm));
    assert(words(two) =~= seq![hosts, algorithm]);
    lemma_first_word(hosts, none);
    assert(hosts + none =~= hosts);
    assert(words(hosts) =~= seq![hosts]);
    // The comments.
    assert(!sep.contains('#'));
    lemma_no_hash(hosts, sep);
    lemma_no_hash(algorithm, sep);
    lemma_no_hash(algorithm + sep, data);
    lemma_no_hash(hosts + sep, key);
    lemma_no_hash(hosts + sep + key, more);
    lemma_no_hash(marker, sep);
    lemma_no_hash(marker + sep, body);
    lemma_no_hash(hosts + sep, algorithm);
    lemma_comment_does_not_count(body, comment);
    lemma_comment_does_not_count(marked, comment);
    lemma_comment_does_not_count(two, comment);
    lemma_comment_does_not_count(hosts, comment);
    lemma_comment_does_not_count(none, comment);
    assert(marker + sep + (hosts + sep + key + more + comment) =~= marked + comment);
    assert(none + comment =~= comment);
    // The marker.
    assert(marker.take(1) =~= "@"@);
    assert(!begins_with(hosts, "@"@)) by {
        if begins_with(hosts, "@"@) {
            assert(hosts.take(1)[0] == '@');
        }
    }
    assert(found[0] == hosts && found[1] == algorithm && found[2] == data);
    let m = words(marked);
    assert(m[0] == marker && m[1] == hosts && m[2] == algorithm && m[3] == data);
}

proof fn lemma_no_hash(a: Seq<char>, b: Seq<char>)
    ensures
        !a.contains('#') && !b.contains('#') ==> !(a + b).contains('#'),
{
    if (a + b).contains('#') {
        let i = (a + b).index_of('#');
        if i < a.len() {
            assert(a[i] == '#');
        } else {
            assert(b[i - a.len()] == '#');
        }
    }
}

proof fn lemma_comment_does_not_count(text: Seq<char>, comment: Seq<char>)
    requires
        !text.contains('#'),
        comment.len() > 0 ==> comment[0] == '#',
    ensures
        fields(text + comment) == words(text),
{
    let line = text + comment;
    let n = text.len() as int;
    assert forall|j: int| 0 <= j < n implies #[trigger] line[j] != '#' by {
        assert(line[j] == text[j]);
        assert(text.contains(text[j]));
    }
    if n < line.len() {
        assert(line[n] == comment[0]);
    }
    lemma_len_before(line, '#', n);
    assert(line.take(n) =~= text);
}

/// A key counts by its algorithm and its data; a comment behind them does not.
pub proof fn keys_count_without_their_comment(
    algorithm: Seq<char>,
    data: Seq<char>,
    comment: Seq<char>,
)
    requires
        is_word(algorithm),
        is_word(data),
        comment.len() > 0 ==> is_white(comment[0]),
    ensures
        canonical(Some(algorithm + seq![' '] + data + comment)) == Ok::<Seq<char>, Error>(
            algorithm + seq![' '] + data,
        ),
        canonical(None) == Err::<Seq<char>, Error>(Error::KeyEncoding),
{
    reveal_strlit(" ");
    assert(" "@ =~= seq![' ']);
    let sep = seq![' '];
    lemma_first_word(data, comment);
    lemma_leading_white(' ', data + comment);
    lemma_first_word(algorithm, sep + (data + comment));
    let s = algorithm + sep + data + comment;
    assert(s =~= algorithm + (sep + (data + comment)));
    assert(words(s) =~= seq![algorithm, data] + words(comment));
    assert(words(s)[0] == algorithm && words(s)[1] == data);
}

/// A host is looked up under its own name on port 22, and with the port behind
/// brackets on any other.
pub proof fn hosts_are_named_with_their_port(host: Seq<char>, port: u16)
    ensures
        port == 22 ==> host_name(host, port) == host,
        port != 22 ==> host_name(host, port) == seq!['['] + host + seq![']', ':'] + decimal(
            port as nat,
        ),
{
    reveal_strlit("[");
    reveal_strlit("]:");
    assert("["@ =~= seq!['[']);
    assert("]:"@ =~= seq![']', ':']);
}

/// Remembering a host keeps all that the file holds and adds one line of its
/// own at the end: the names and the key.
pub proof fn remembering_adds_a_line(existing: Seq<char>, name: Seq<char>, key: Seq<char>)
    ensures
        ({
            let line = name + seq![' '] + key + seq!['\n'];
            &&& existing.len() == 0 || existing.last() == '\n' ==> appended(
                existing,
                seq![name],
                key,
            ) == existing + line
            &&& existing.len() > 0 && existing.last() != '\n' ==> appended(
                existing,
                seq![name],
                key,
            ) == existing + seq!['\n'] + line
        }),
{
    reveal_strlit(" ");
    reveal_strlit("\n");
    reveal_strlit("");
    assert(" "@ =~= seq![' ']);
    assert("\n"@ =~= seq!['\n']);
    assert(joined(seq![name], ","@) == name);
    assert(existing + ""@ =~= existing);
}

/// What is done about a host follows from looking it up: a host that is known is
/// trusted and nothing is written, one that is not known is remembered, and one
/// that is known by another key is refused.
pub proof fn trust_follows_from_the_lookup(
    existing: Seq<char>,
    host: Seq<char>,
    port: u16,
    key: Seq<char>,
    wanted: Seq<char>,
    looked: Result<bool, Error>,
    r: Result<Trust, Error>,
)
    requires
        canonical(Some(key)) == Ok::<Seq<char>, Error>(wanted),
        looked_up(known_in(existing), seq![host_name(host, port)], Some(key), looked),
        trusted(existing, host, port, Some(key), r),
    ensures
        looked == Ok::<bool, Error>(true) ==> r == Ok::<Trust, Error>(Trust::Known),
        looked == Ok::<bool, Error>(false) ==> (r matches Ok(Trust::Remember(contents))
            && contents@ == appended(existing, seq![host_name(host, port)], wanted)),
        looked is Err ==> r is Err,
{
}

/// A key is read from its data, whatever they are, as long as they do not speak
/// of certificates; and a certificate is read where they speak of it only once,
/// in the label that they begin with and behind a name. What is not base64 is no
/// key.
pub proof fn keys_are_read_from_their_data(text: Seq<char>, bytes: Seq<u8>, at: int)
    requires
        words(text).len() >= 2,
        words(text)[1] == crate::encoding::base64_text(bytes),
    ensures
        ({
            let mark = seq![0x2du8, 0x63, 0x65, 0x72, 0x74, 0x2d, 0x76, 0x30, 0x31, 0x40];
            let stands = |i: int|
                0 <= i && i + 10 <= bytes.len() && bytes.subrange(i, i + 10) == mark;
            &&& (forall|i: int| !#[trigger] marked_at(bytes, i)) ==> key_in(text) == rewritten(text)
            &&& at > 4 && marked_at(bytes, at) && (forall|i: int| #[trigger]
                marked_at(bytes, i) ==> i == at) ==> key_in(text) == rewritten(text)
            &&& marked_at(bytes, at) == stands(at)
        }),
{
    crate::encoding::base64_is_read_back(bytes);
    assert(key_bytes(text) == Some(bytes));
    if at > 4 && marked_at(bytes, at) && (forall|i: int| #[trigger]
        marked_at(bytes, i) ==> i == at) {
        assert(!marked_at(bytes, 4));
    }
}

/// A known host is known by the patterns of its line, which stand between commas,
/// and by the key of its line. A line without a key gives none.
pub proof fn entries_are_what_their_line_says(
    line: Seq<char>,
    hosts: Seq<char>,
    text: Seq<char>,
    i: int,
)
    requires
        line_parts(line) == Some((hosts, text)),
    ensures
        key_in(text) is None ==> line_entry(line) is None,
        key_in(text) is Some ==> {
            &&& line_entry(line) is Some
            &&& line_entry(line)->0.key == key_in(text)->0
            &&& joined(line_entry(line)->0.patterns, seq![',']) == hosts
            &&& 0 <= i < line_entry(line)->0.patterns.len()
                ==> !line_entry(line)->0.patterns[i].contains(',')
        },
{
    pieces_make_up_the_text(hosts, ',');
}

/// A host that is listed by its own name, among others or alone, is found; and
/// one that is not listed is not.
pub proof fn listed_hosts_are_found(names: Seq<Seq<char>>, host: Seq<char>)
    requires
        forall|j: int|
            0 <= j < names.len() ==> {
                let name = #[trigger] names[j];
                name.len() > 0 && name[0] != '!' && name[0] != '|' && !name.contains('*')
                    && !name.contains('?')
            },
    ensures
        listed(names, host) <==> names.contains(host),
{
    one_pattern_admits_and_none_excludes(names, host);
    assert forall|j: int| 0 <= j < names.len() implies pattern_matches(#[trigger] names[j], host)
        == (names[j] == host) by {
        patterns_match_names(names[j], host);
    }
    if names.contains(host) {
        let j = names.index_of(host);
        assert(pattern_matches(names[j], host));
    }
}

/// Where the key of the first match cannot be compared, or the key that is
/// presented cannot, the lookup fails, whatever stands behind.
pub proof fn what_cannot_be_compared_fails(
    known: Seq<KnownHostView>,
    hosts: Seq<Seq<char>>,
    key: Option<Seq<char>>,
    r: Result<bool, Error>,
    i: int,
)
    requires
        looked_up(known, hosts, key, r),
        0 <= i < known.len(),
        forall|j: int, h: int|
            0 <= j < i && 0 <= h < hosts.len() ==> !listed(
                (#[trigger] known[j]).patterns,
                #[trigger] hosts[h],
            ),
        exists|h: int| 0 <= h < hosts.len() && listed(known[i].patterns, #[trigger] hosts[h]),
    ensures
        canonical(key) is Err ==> r is Err,
        canonical(known[i].key) is Err ==> r is Err,
{
    assert forall|j: int| 0 <= j < i implies !matches_any(#[trigger] known[j], hosts) by {
        if matches_any(known[j], hosts) {
            let h = choose|h: int|
                0 <= h < hosts.len() && listed(known[j].patterns, #[trigger] hosts[h]);
            assert(!listed(known[j].patterns, hosts[h]));
        }
    }
    if canonical(key) is Ok {
        lemma_verdict_is_of_the_first(known, hosts, canonical(key)->Ok_0, i);
        assert(seq![known[i]][0] == known[i]);
    }
}

/// Adding lines behind a line that matches a host changes no answer about it.
pub proof fn later_lines_change_nothing(
    known: Seq<KnownHostView>,
    more: Seq<KnownHostView>,
    hosts: Seq<Seq<char>>,
    key: Option<Seq<char>>,
    i: int,
    r: Result<bool, Error>,
)
    requires
        0 <= i < known.len(),
        matches_any(known[i], hosts),
    ensures
        looked_up(known + more, hosts, key, r) <==> looked_up(known, hosts, key, r),
{
    if canonical(key) is Ok {
        lemma_verdict_of_more(known, more, hosts, canonical(key)->Ok_0, i);
    }
}

proof fn lemma_verdict_of_more(
    known: Seq<KnownHostView>,
    more: Seq<KnownHostView>,
    hosts: Seq<Seq<char>>,
    wanted: Seq<char>,
    i: int,
)
    requires
        0 <= i < known.len(),
        matches_any(known[i], hosts),
    ensures
        verdict(known + more, hosts, wanted) == verdict(known, hosts, wanted),
    decreases known.len(),
{
    assert((known + more)[0] == known[0]);
    if !matches_any(known[0], hosts) {
        assert((known + more).skip(1) =~= known.skip(1) + more);
        assert(known.skip(1)[i - 1] == known[i]);
        lemma_verdict_of_more(known.skip(1), more, hosts, wanted, i - 1);
    }
}

} // verus!
