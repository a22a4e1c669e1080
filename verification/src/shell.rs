//! Texts as words of a shell command.

use vstd::prelude::*;
use vstd::string::*;

verus! {

/// Whether a character means something to a shell.
pub open spec fn is_special(c: char) -> bool {
    ||| c == '\n'
    ||| c == '\''
    ||| c == '|'
    ||| c == '&'
    ||| c == ';'
    ||| c == '<'
    ||| c == '>'
    ||| c == '('
    ||| c == ')'
    ||| c == '$'
    ||| c == '`'
    ||| c == '\\'
    ||| c == '"'
    ||| c == ' '
    ||| c == '\t'
    ||| c == '*'
    ||| c == '?'
    ||| c == '['
    ||| c == '#'
    ||| c == '~'
    ||| c == '='
    ||| c == '%'
}

/// Whether a text stands for itself in a shell command.
pub open spec fn is_plain(s: Seq<char>) -> bool {
    s.len() > 0 && forall|i: int| 0 <= i < s.len() ==> !is_special(#[trigger] s[i])
}

/// A text for the inside of single quotes: each single quote in it closes them,
/// stands behind a backslash, and opens them again.
pub open spec fn escaped(s: Seq<char>) -> Seq<char>
    decreases s.len(),
{
    if s.len() == 0 {
        s
    } else if s[0] == '\'' {
        seq!['\'', '\\', '\'', '\''] + escaped(s.skip(1))
    } else {
        seq![s[0]] + escaped(s.skip(1))
    }
}

/// A text as a word of a shell command.
pub open spec fn quoted(s: Seq<char>) -> Seq<char> {
    if is_plain(s) {
        s
    } else {
        seq!['\''] + escaped(s) + seq!['\'']
    }
}

/// `shell_words::quote`: a text without special characters is left as it is;
/// any other, and the empty text, is put in single quotes.
#[verifier::external_body]
pub(crate) fn quote(s: &str) -> (r: String)
    ensures
        r@ == quoted(s@),
{
    shell_words::quote(s).into_owned()
}

// ---------------------------------------------------------------------------
// Laws
// ---------------------------------------------------------------------------

/// What a shell reads a word as, inside single quotes or outside of them: inside,
/// all but the closing quote stands for itself; outside, a backslash makes the
/// next character stand for itself, and so do the characters that mean nothing.
/// Nothing is read where a character outside of quotes means something else, or
/// where quotes are left open.
pub open spec fn read_by_shell(word: Seq<char>, inside: bool) -> Option<Seq<char>>
    decreases word.len(),
{
    if word.len() == 0 {
        if inside {
            None
        } else {
            Some(word)
        }
    } else if word[0] == '\'' {
        read_by_shell(word.skip(1), !inside)
    } else if inside {
        match read_by_shell(word.skip(1), true) {
            Some(rest) => Some(seq![word[0]] + rest),
            None => None,
        }
    } else if word[0] == '\\' {
        if word.len() < 2 {
            None
        } else {
            match read_by_shell(word.skip(2), false) {
                Some(rest) => Some(seq![word[1]] + rest),
                None => None,
            }
        }
    } else if is_special(word[0]) {
        None
    } else {
        match read_by_shell(word.skip(1), false) {
            Some(rest) => Some(seq![word[0]] + rest),
            None => None,
        }
    }
}

proof fn lemma_escaped_is_read(s: Seq<char>)
    ensures
        read_by_shell(escaped(s) + seq!['\''], true) == Some(s),
    decreases s.len(),
{
    let close = seq!['\''];
    let word = escaped(s) + close;
    if s.len() == 0 {
        assert(word =~= close);
        assert(close.skip(1) =~= Seq::<char>::empty());
        assert(read_by_shell(close.skip(1), false) == Some(close.skip(1)));
        assert(s =~= close.skip(1));
    } else {
        let rest = escaped(s.skip(1)) + close;
        lemma_escaped_is_read(s.skip(1));
        assert(seq![s[0]] + s.skip(1) =~= s);
        if s[0] == '\'' {
            assert(word =~= seq!['\'', '\\', '\'', '\''] + rest);
            let w1 = word.skip(1);
            let w3 = w1.skip(2);
            assert(w1 =~= seq!['\\', '\'', '\''] + rest);
            assert(w3 =~= seq!['\''] + rest);
            assert(w3.skip(1) =~= rest);
            assert(read_by_shell(w3, false) == read_by_shell(rest, true));
            assert(read_by_shell(w1, false) == Some(seq!['\''] + s.skip(1)));
        } else {
            assert(word =~= seq![s[0]] + rest);
            assert(word.skip(1) =~= rest);
        }
    }
}

proof fn lemma_plain_is_read(s: Seq<char>)
    requires
        forall|i: int| 0 <= i < s.len() ==> !is_special(#[trigger] s[i]),
    ensures
        read_by_shell(s, false) == Some(s),
    decreases s.len(),
{
    if s.len() > 0 {
        assert(!is_special(s[0]));
        assert forall|i: int| 0 <= i < s.skip(1).len() implies !is_special(
            #[trigger] s.skip(1)[i],
        ) by {
            assert(s.skip(1)[i] == s[i + 1]);
        }
        lemma_plain_is_read(s.skip(1));
        assert(seq![s[0]] + s.skip(1) =~= s);
    }
}

/// Whatever a text holds, a shell reads its quoted form as that text: nothing in
/// it is taken for anything else, and it is never read as no word at all.
pub proof fn quoted_text_is_literal(s: Seq<char>)
    ensures
        read_by_shell(quoted(s), false) == Some(s),
        quoted(s).len() > 0,
{
    if is_plain(s) {
        lemma_plain_is_read(s);
    } else {
        let word = quoted(s);
        lemma_escaped_is_read(s);
        assert(word.skip(1) =~= escaped(s) + seq!['\'']);
        assert(word[0] == '\'');
    }
}

/// Different texts have different quoted forms.
pub proof fn quoting_is_injective(a: Seq<char>, b: Seq<char>)
    requires
        quoted(a) == quoted(b),
    ensures
        a == b,
{
    quoted_text_is_literal(a);
    quoted_text_is_literal(b);
}

} // verus!
