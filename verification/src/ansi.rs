//! Cleaning terminal output.

use crate::text::{chars_of, is_control};
use vstd::prelude::*;
use vstd::string::*;

verus! {

/// Whether a character stays in cleaned output: printable characters and the
/// three characters of line layout do; other control characters and the
/// Private Use Area, where icon fonts live, do not.
pub open spec fn keepable(c: char) -> bool {
    c == '\n' || c == '\r' || c == '\t' || (!is_control(c) && !(0xE000 <= c as u32 <= 0xF8FF))
}

/// What follows the parameters of a control sequence and the character, from
/// `@` to `~`, that ends it.
pub open spec fn after_control_sequence(s: Seq<char>) -> Seq<char>
    decreases s.len(),
{
    if s.len() == 0 {
        s
    } else if 0x40 <= s[0] as u32 <= 0x7E {
        s.skip(1)
    } else {
        after_control_sequence(s.skip(1))
    }
}

/// What follows an operating system command, which ends with a bell or with an
/// escape character and a backslash. An escape character takes the character
/// behind it along, whatever it is.
pub open spec fn after_system_command(s: Seq<char>) -> Seq<char>
    decreases s.len(),
{
    if s.len() == 0 {
        s
    } else if s[0] == '\x07' {
        s.skip(1)
    } else if s[0] == '\x1b' {
        if s.len() == 1 {
            s.skip(1)
        } else if s[1] == '\\' {
            s.skip(2)
        } else {
            after_system_command(s.skip(2))
        }
    } else {
        after_system_command(s.skip(1))
    }
}

proof fn lemma_after_control_sequence(s: Seq<char>)
    ensures
        after_control_sequence(s).len() <= s.len(),
    decreases s.len(),
{
    if s.len() > 0 {
        lemma_after_control_sequence(s.skip(1));
    }
}

proof fn lemma_after_system_command(s: Seq<char>)
    ensures
        after_system_command(s).len() <= s.len(),
    decreases s.len(),
{
    if s.len() > 1 {
        lemma_after_system_command(s.skip(2));
    }
    if s.len() > 0 {
        lemma_after_system_command(s.skip(1));
    }
}

/// `s` without escape sequences and without characters that are not kept.
pub open spec fn stripped(s: Seq<char>) -> Seq<char>
    decreases s.len(),
    via stripped_decreases
{
    if s.len() == 0 {
        s
    } else if s[0] == '\x1b' {
        if s.len() == 1 {
            Seq::empty()
        } else if s[1] == '[' {
            stripped(after_control_sequence(s.skip(2)))
        } else if s[1] == ']' {
            stripped(after_system_command(s.skip(2)))
        } else {
            stripped(s.skip(2))
        }
    } else if keepable(s[0]) {
        seq![s[0]] + stripped(s.skip(1))
    } else {
        stripped(s.skip(1))
    }
}

#[via_fn]
proof fn stripped_decreases(s: Seq<char>) {
    if s.len() > 1 {
        lemma_after_control_sequence(s.skip(2));
        lemma_after_system_command(s.skip(2));
    }
}

/// Whether `ch` stays in cleaned output.
pub fn is_keepable(ch: char) -> (r: bool)
    ensures
        r == keepable(ch),
{
    let code: u32 = ch as u32;
    if ch == '\n' || ch == '\r' || ch == '\t' {
        return true;
    }
    let control = code < 0x20 || (0x7F <= code && code < 0xA0);
    !control && !(0xE000 <= code && code <= 0xF8FF)
}

/// Where the control sequence whose parameters begin at `i` is over.
fn skip_control_sequence(v: &Vec<char>, i: usize) -> (r: usize)
    requires
        i <= v@.len(),
    ensures
        i <= r <= v@.len(),
        v@.skip(r as int) == after_control_sequence(v@.skip(i as int)),
{
    let mut k: usize = i;
    while k < v.len()
        invariant
            i <= k <= v@.len(),
            after_control_sequence(v@.skip(k as int)) == after_control_sequence(v@.skip(i as int)),
        decreases v@.len() - k,
    {
        let ghost rest = v@.skip(k as int);
        let code: u32 = v[k] as u32;
        assert(rest[0] == v@[k as int]);
        assert(rest.skip(1) =~= v@.skip(k + 1));
        k += 1;
        if 0x40 <= code && code <= 0x7E {
            return k;
        }
    }
    k
}

/// Where the operating system command that begins at `i` is over.
fn skip_system_command(v: &Vec<char>, i: usize) -> (r: usize)
    requires
        i <= v@.len(),
    ensures
        i <= r <= v@.len(),
        v@.skip(r as int) == after_system_command(v@.skip(i as int)),
{
    let mut k: usize = i;
    while k < v.len()
        invariant
            i <= k <= v@.len(),
            after_system_command(v@.skip(k as int)) == after_system_command(v@.skip(i as int)),
        decreases v@.len() - k,
    {
        let ghost rest = v@.skip(k as int);
        let c = v[k];
        assert(rest[0] == v@[k as int]);
        assert(rest.skip(1) =~= v@.skip(k + 1));
        k += 1;
        if c == '\x07' {
            return k;
        }
        if c == '\x1b' {
            if k == v.len() {
                return k;
            }
            let d = v[k];
            assert(rest[1] == v@[k as int]);
            assert(rest.skip(2) =~= v@.skip(k + 1));
            k += 1;
            if d == '\\' {
                return k;
            }
        }
    }
    k
}

/// Removes from terminal output the escape sequences, the characters of the
/// Private Use Area and the control characters but for line feeds, carriage
/// returns and tabs.
pub fn strip_ansi(text: &str) -> (r: String)
    ensures
        r@ == stripped(text@),
{
    let v = chars_of(text);
    let mut result = "".to_owned();
    let mut i: usize = 0;
    proof {
        reveal_strlit("");
        assert(v@.skip(0) =~= v@);
        assert(result@ + stripped(v@) =~= stripped(v@));
    }
    while i < v.len()
        invariant
            i <= v@.len(),
            result@ + stripped(v@.skip(i as int)) == stripped(v@),
        decreases v@.len() - i,
    {
        let ghost rest = v@.skip(i as int);
        let ch = v[i];
        assert(rest[0] == v@[i as int]);
        assert(rest.skip(1) =~= v@.skip(i + 1));
        i += 1;
        if ch == '\x1b' {
            if i == v.len() {
                assert(result@ + stripped(rest) =~= result@);
                assert(v@.skip(i as int).len() == 0);
                assert(result@ + stripped(v@.skip(i as int)) =~= result@);
            } else {
                let next = v[i];
                assert(rest[1] == v@[i as int]);
                assert(rest.skip(2) =~= v@.skip(i + 1));
                i += 1;
                if next == '[' {
                    i = skip_control_sequence(&v, i);
                } else if next == ']' {
                    i = skip_system_command(&v, i);
                }
            }
        } else if is_keepable(ch) {
            let ghost before = result@;
            result.push(ch);
            assert(result@ + stripped(rest.skip(1)) =~= before + (seq![ch] + stripped(
                rest.skip(1),
            )));
        }
    }
    assert(v@.skip(i as int).len() == 0);
    assert(result@ + stripped(v@.skip(i as int)) =~= result@);
    result
}

// ---------------------------------------------------------------------------
// Laws
// ---------------------------------------------------------------------------

/// Whether every character of `s` stays in cleaned output.
pub open spec fn clean(s: Seq<char>) -> bool {
    forall|i: int| 0 <= i < s.len() ==> keepable(#[trigger] s[i])
}

/// Cleaned output holds only characters that are kept: no escape character, no
/// control character but the three of line layout, nothing of the Private Use
/// Area.
pub proof fn stripped_is_clean(s: Seq<char>)
    ensures
        clean(stripped(s)),
    decreases s.len(),
{
    if s.len() == 0 {
    } else if s[0] == '\x1b' {
        if s.len() > 1 {
            lemma_after_control_sequence(s.skip(2));
            lemma_after_system_command(s.skip(2));
            stripped_is_clean(after_control_sequence(s.skip(2)));
            stripped_is_clean(after_system_command(s.skip(2)));
            stripped_is_clean(s.skip(2));
        }
    } else {
        stripped_is_clean(s.skip(1));
    }
}

/// Text that needs no cleaning is left as it is.
pub proof fn clean_text_is_kept(s: Seq<char>)
    requires
        clean(s),
    ensures
        stripped(s) == s,
    decreases s.len(),
{
    if s.len() > 0 {
        assert(keepable(s[0]));
        assert forall|i: int| 0 <= i < s.skip(1).len() implies keepable(#[trigger] s.skip(1)[i]) by {
            assert(s.skip(1)[i] == s[i + 1]);
        }
        clean_text_is_kept(s.skip(1));
        assert(seq![s[0]] + s.skip(1) =~= s);
    }
}

/// Cleaning twice is cleaning once.
pub proof fn stripping_is_idempotent(s: Seq<char>)
    ensures
        stripped(stripped(s)) == stripped(s),
{
    stripped_is_clean(s);
    clean_text_is_kept(stripped(s));
}

/// Cleaning invents nothing: what it leaves of `s` is no longer than `s`, and
/// made of characters of `s`.
pub proof fn stripping_only_removes(s: Seq<char>)
    ensures
        stripped(s).len() <= s.len(),
        forall|i: int| 0 <= i < stripped(s).len() ==> s.contains(#[trigger] stripped(s)[i]),
    decreases s.len(),
{
    if s.len() == 0 {
    } else if s[0] == '\x1b' {
        if s.len() > 1 {
            let t = s.skip(2);
            lemma_after_control_sequence(t);
            lemma_after_system_command(t);
            lemma_control_sequence_rest(t);
            lemma_system_command_rest(t);
            stripping_only_removes(after_control_sequence(t));
            stripping_only_removes(after_system_command(t));
            stripping_only_removes(t);
            assert forall|c: char| t.contains(c) implies s.contains(c) by {
                let i = t.index_of(c);
                assert(s[i + 2] == c);
            }
        }
    } else {
        let t = s.skip(1);
        stripping_only_removes(t);
        assert forall|c: char| t.contains(c) implies s.contains(c) by {
            let i = t.index_of(c);
            assert(s[i + 1] == c);
        }
        if keepable(s[0]) {
            assert forall|i: int| 0 <= i < stripped(s).len() implies s.contains(
                #[trigger] stripped(s)[i],
            ) by {
                if i > 0 {
                    assert(stripped(s)[i] == stripped(t)[i - 1]);
                }
            }
        }
    }
}

proof fn lemma_control_sequence_rest(s: Seq<char>)
    ensures
        forall|c: char| after_control_sequence(s).contains(c) ==> s.contains(c),
    decreases s.len(),
{
    if s.len() > 0 {
        lemma_control_sequence_rest(s.skip(1));
        assert forall|c: char| s.skip(1).contains(c) implies s.contains(c) by {
            let i = s.skip(1).index_of(c);
            assert(s[i + 1] == c);
        }
    }
}

proof fn lemma_system_command_rest(s: Seq<char>)
    ensures
        forall|c: char| after_system_command(s).contains(c) ==> s.contains(c),
    decreases s.len(),
{
    if s.len() > 0 {
        lemma_system_command_rest(s.skip(1));
        assert forall|c: char| s.skip(1).contains(c) implies s.contains(c) by {
            let i = s.skip(1).index_of(c);
            assert(s[i + 1] == c);
        }
    }
    if s.len() > 1 {
        lemma_system_command_rest(s.skip(2));
        assert forall|c: char| s.skip(2).contains(c) implies s.contains(c) by {
            let i = s.skip(2).index_of(c);
            assert(s[i + 2] == c);
        }
    }
}

proof fn lemma_end_of_control_sequence(p: Seq<char>, rest: Seq<char>)
    requires
        forall|i: int| 0 <= i < p.len() ==> !(0x40 <= #[trigger] p[i] as u32 <= 0x7e),
    ensures
        after_control_sequence(p + rest) == after_control_sequence(rest),
    decreases p.len(),
{
    if p.len() == 0 {
        assert(p + rest =~= rest);
    } else {
        let q = p.skip(1);
        assert((p + rest).skip(1) =~= q + rest);
        assert forall|i: int| 0 <= i < q.len() implies !(0x40 <= #[trigger] q[i] as u32 <= 0x7e) by {
            assert(q[i] == p[i + 1]);
        }
        assert((p + rest)[0] == p[0]);
        lemma_end_of_control_sequence(q, rest);
    }
}

/// A control sequence is removed, with its parameters and the one character from
/// `@` to `~` that ends it, and what stands behind it is kept. One that does not
/// end leaves nothing.
pub proof fn control_sequences_are_removed(p: Seq<char>, end: char, rest: Seq<char>)
    requires
        forall|i: int| 0 <= i < p.len() ==> !(0x40 <= #[trigger] p[i] as u32 <= 0x7e),
        0x40 <= end as u32 <= 0x7e,
    ensures
        stripped(seq!['\x1b', '['] + p + seq![end] + rest) == stripped(rest),
        stripped(seq!['\x1b', '['] + p).len() == 0,
{
    let s = seq!['\x1b', '['] + p + seq![end] + rest;
    assert(s.skip(2) =~= p + (seq![end] + rest));
    lemma_end_of_control_sequence(p, seq![end] + rest);
    assert((seq![end] + rest).skip(1) =~= rest);
    let open = seq!['\x1b', '['] + p;
    let none = Seq::<char>::empty();
    assert(open.skip(2) =~= p + none);
    lemma_end_of_control_sequence(p, none);
    assert(after_control_sequence(none) =~= none);
    assert(stripped(none) =~= none);
}

proof fn lemma_end_of_system_command(p: Seq<char>, rest: Seq<char>)
    requires
        forall|i: int| 0 <= i < p.len() ==> #[trigger] p[i] != '\x07' && p[i] != '\x1b',
    ensures
        after_system_command(p + rest) == after_system_command(rest),
    decreases p.len(),
{
    if p.len() == 0 {
        assert(p + rest =~= rest);
    } else {
        let q = p.skip(1);
        assert((p + rest).skip(1) =~= q + rest);
        assert forall|i: int| 0 <= i < q.len() implies #[trigger] q[i] != '\x07' && q[i]
            != '\x1b' by {
            assert(q[i] == p[i + 1]);
        }
        assert((p + rest)[0] == p[0]);
        lemma_end_of_system_command(q, rest);
    }
}

/// An operating system command, such as the title of a window, is removed up to
/// the bell or the escape character and backslash that end it, and what stands
/// behind it is kept. One that does not end leaves nothing.
pub proof fn system_commands_are_removed(p: Seq<char>, rest: Seq<char>)
    requires
        forall|i: int| 0 <= i < p.len() ==> #[trigger] p[i] != '\x07' && p[i] != '\x1b',
    ensures
        stripped(seq!['\x1b', ']'] + p + seq!['\x07'] + rest) == stripped(rest),
        stripped(seq!['\x1b', ']'] + p + seq!['\x1b', '\\'] + rest) == stripped(rest),
        stripped(seq!['\x1b', ']'] + p).len() == 0,
{
    let a = seq!['\x1b', ']'] + p + seq!['\x07'] + rest;
    assert(a.skip(2) =~= p + (seq!['\x07'] + rest));
    lemma_end_of_system_command(p, seq!['\x07'] + rest);
    assert((seq!['\x07'] + rest).skip(1) =~= rest);
    let b = seq!['\x1b', ']'] + p + seq!['\x1b', '\\'] + rest;
    let end = seq!['\x1b', '\\'] + rest;
    assert(b.skip(2) =~= p + end);
    lemma_end_of_system_command(p, end);
    assert(end[0] == '\x1b' && end[1] == '\\');
    assert(end.skip(2) =~= rest);
    let open = seq!['\x1b', ']'] + p;
    let none = Seq::<char>::empty();
    assert(open.skip(2) =~= p + none);
    lemma_end_of_system_command(p, none);
    assert(after_system_command(none) =~= none);
    assert(stripped(none) =~= none);
}

/// Any other escape sequence is the escape character and the one behind it.
pub proof fn short_sequences_are_removed(c: char, rest: Seq<char>)
    requires
        c != '[',
        c != ']',
    ensures
        stripped(seq!['\x1b', c] + rest) == stripped(rest),
        stripped(seq!['\x1b']).len() == 0,
{
    assert((seq!['\x1b', c] + rest).skip(2) =~= rest);
}

/// What can be read stays, in its place: all characters but the control
/// characters, of which only line feeds, carriage returns and tabs stay, and the
/// icons from U+E000 to U+F8FF. The others go, one by one.
pub proof fn readable_characters_are_kept(a: Seq<char>, c: char, b: Seq<char>)
    requires
        forall|i: int|
            0 <= i < a.len() ==> {
                ||| #[trigger] a[i] == '\n'
                ||| a[i] == '\r'
                ||| a[i] == '\t'
                ||| ' ' <= a[i] <= '~'
                ||| '\u{a0}' <= a[i] && !(0xe000 <= a[i] as u32 <= 0xf8ff)
            },
        c != '\x1b',
    ensures
        stripped(a + b) == a + stripped(b),
        c != '\n' && c != '\r' && c != '\t' && (c < ' ' || '\u{7f}' <= c < '\u{a0}' || 0xe000
            <= c as u32 <= 0xf8ff) ==> stripped(a + seq![c] + b) == a + stripped(b),
    decreases a.len(),
{
    if a.len() == 0 {
        assert(a + b =~= b);
        assert(a + stripped(b) =~= stripped(b));
        assert(a + seq![c] + b =~= seq![c] + b);
        assert((seq![c] + b).skip(1) =~= b);
        assert((seq![c] + b)[0] == c);
    } else {
        let t = a.skip(1);
        assert forall|i: int| 0 <= i < t.len() implies {
            ||| #[trigger] t[i] == '\n'
            ||| t[i] == '\r'
            ||| t[i] == '\t'
            ||| ' ' <= t[i] <= '~'
            ||| '\u{a0}' <= t[i] && !(0xe000 <= t[i] as u32 <= 0xf8ff)
        } by {
            assert(t[i] == a[i + 1]);
        }
        readable_characters_are_kept(t, c, b);
        assert((a + b)[0] == a[0]);
        assert((a + b).skip(1) =~= t + b);
        assert(seq![a[0]] + (t + stripped(b)) =~= a + stripped(b));
        assert((a + seq![c] + b)[0] == a[0]);
        assert((a + seq![c] + b).skip(1) =~= t + seq![c] + b);
    }
}

/// Within an operating system command, an escape character takes the character
/// behind it along, whatever it is; at the end of the text it is the end.
pub proof fn escapes_within_system_commands(p: Seq<char>, c: char, rest: Seq<char>)
    requires
        forall|i: int| 0 <= i < p.len() ==> #[trigger] p[i] != '\x07' && p[i] != '\x1b',
        c != '\\',
    ensures
        stripped(seq!['\x1b', ']'] + p + seq!['\x1b', c] + rest) == stripped(
            seq!['\x1b', ']'] + rest,
        ),
        stripped(seq!['\x1b', ']'] + p + seq!['\x1b']).len() == 0,
{
    let none = Seq::<char>::empty();
    let a = seq!['\x1b', ']'] + p + seq!['\x1b', c] + rest;
    let inner = seq!['\x1b', c] + rest;
    assert(a.skip(2) =~= p + inner);
    lemma_end_of_system_command(p, inner);
    assert(inner[0] == '\x1b' && inner[1] == c);
    assert(inner.skip(2) =~= rest);
    assert((seq!['\x1b', ']'] + rest).skip(2) =~= rest);
    let b = seq!['\x1b', ']'] + p + seq!['\x1b'];
    assert(b.skip(2) =~= p + seq!['\x1b']);
    lemma_end_of_system_command(p, seq!['\x1b']);
    assert(seq!['\x1b'].skip(1) =~= none);
    assert(after_system_command(seq!['\x1b']) =~= none);
    assert(stripped(none) =~= none);
}

} // verus!
