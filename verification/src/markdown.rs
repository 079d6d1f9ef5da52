//! Escaping of text for Telegram's MarkdownV2 dialect.

use vstd::prelude::*;

verus! {

/// The characters that carry meaning in MarkdownV2 and are therefore written
/// with a backslash in front when they are meant as themselves.
pub open spec fn is_reserved(c: char) -> bool {
    ||| c == '_'
    ||| c == '*'
    ||| c == '['
    ||| c == ']'
    ||| c == '('
    ||| c == ')'
    ||| c == '~'
    ||| c == '`'
    ||| c == '>'
    ||| c == '#'
    ||| c == '+'
    ||| c == '-'
    ||| c == '='
    ||| c == '|'
    ||| c == '{'
    ||| c == '}'
    ||| c == '.'
    ||| c == '!'
}

/// What one character becomes: a reserved one gets a backslash in front, any
/// other stays as it is. The backslash itself is not reserved.
pub open spec fn escaped_char(c: char) -> Seq<char> {
    if is_reserved(c) {
        seq!['\\', c]
    } else {
        seq![c]
    }
}

/// The escaped form of a text: each character replaced by [`escaped_char`].
pub open spec fn escaped(s: Seq<char>) -> Seq<char>
    decreases s.len(),
{
    if s.len() == 0 {
        Seq::empty()
    } else {
        escaped_char(s[0]) + escaped(s.drop_first())
    }
}

/// No reserved character stands in `t` without a backslash right before it.
pub open spec fn reserved_guarded(t: Seq<char>) -> bool {
    forall|i: int|
        0 <= i < t.len() && is_reserved(#[trigger] t[i]) ==> i > 0 && t[i - 1] == '\\'
}

/// Reads an escaped text back: a backslash followed by a reserved character
/// stands for that character, everything else for itself.
pub open spec fn unescaped(t: Seq<char>) -> Seq<char>
    decreases t.len(),
{
    if t.len() == 0 {
        Seq::empty()
    } else if t[0] == '\\' && t.len() >= 2 && is_reserved(t[1]) {
        seq![t[1]] + unescaped(t.skip(2))
    } else {
        seq![t[0]] + unescaped(t.drop_first())
    }
}

/// Calls `teloxide::utils::markdown::escape`. That function makes eighteen
/// passes over the text, one for each reserved character, and each pass puts
/// a backslash before every occurrence of its character. No pass looks for
/// the backslash, and none for a character that another pass looks for, so
/// every reserved character of the input ends up with exactly one backslash
/// before it and nothing else changes: that is [`escaped`].
#[verifier::external_body]
fn escape_markdown(s: &str) -> (r: String)
    ensures
        r@ == escaped(s@),
{
    teloxide::utils::markdown::escape(s)
}

/// Escapes `s` for MarkdownV2.
pub fn escape(s: &str) -> (r: String)
    ensures
        r@ == escaped(s@),
        reserved_guarded(r@),
        unescaped(r@) == s@,
{
    proof {
        lemma_escaped_guards_reserved(s@);
        lemma_unescaped_escaped(s@);
    }
    escape_markdown(s)
}

/// An escaped text begins with a character that is not reserved: either the
/// backslash that guards a reserved one, or a character that needs none.
pub proof fn lemma_escaped_first(s: Seq<char>)
    requires
        s.len() > 0,
    ensures
        escaped(s).len() > 0,
        !is_reserved(escaped(s)[0]),
        escaped(s)[0] == (if is_reserved(s[0]) { '\\' } else { s[0] }),
{
    assert(escaped(s) == escaped_char(s[0]) + escaped(s.drop_first()));
}

/// In an escaped text every reserved character has a backslash right before
/// it, so nothing of the input can act as markup.
pub proof fn lemma_escaped_guards_reserved(s: Seq<char>)
    ensures
        reserved_guarded(escaped(s)),
    decreases s.len(),
{
    if s.len() > 0 {
        let head = escaped_char(s[0]);
        let tail = escaped(s.drop_first());
        lemma_escaped_guards_reserved(s.drop_first());
        assert(escaped(s) == head + tail);
        assert forall|i: int|
            0 <= i < escaped(s).len() && is_reserved(#[trigger] escaped(s)[i]) implies i > 0
            && escaped(s)[i - 1] == '\\' by {
            if i >= head.len() {
                let j = i - head.len();
                assert(escaped(s)[i] == tail[j]);
                assert(j > 0 && tail[j - 1] == '\\');
                assert(escaped(s)[i - 1] == tail[j - 1]);
            }
        }
    }
}

/// Reading an escaped text back gives the text that was escaped.
pub proof fn lemma_unescaped_escaped(s: Seq<char>)
    ensures
        unescaped(escaped(s)) == s,
    decreases s.len(),
{
    if s.len() > 0 {
        let c = s[0];
        let rest = s.drop_first();
        let t = escaped(s);
        let tail = escaped(rest);
        lemma_unescaped_escaped(rest);
        assert(t == escaped_char(c) + tail);
        if is_reserved(c) {
            assert(t[0] == '\\' && t[1] == c);
            assert(t.skip(2) =~= tail);
        } else {
            assert(t[0] == c);
            assert(t.drop_first() =~= tail);
            if c == '\\' && t.len() >= 2 {
                assert(rest.len() > 0);
                lemma_escaped_first(rest);
                assert(t[1] == tail[0]);
            }
        }
        assert(seq![c] + rest =~= s);
    }
}

} // verus!
