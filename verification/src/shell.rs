//! Quoting of arguments for the POSIX shell that runs remote and local
//! commands.

use vstd::prelude::*;
use crate::text::{
    chars_of, index_of, is_ws, is_ws_exec, lemma_index_of, lemma_index_of_unique, owned, push_char,
    replace, replace_str,
};

verus! {

broadcast use vstd::string::group_string_axioms;

/// The characters that make the shell do something other than take them
/// literally: whitespace and `"'\$`!#&|;(){}[]<>?*~`.
pub open spec fn needs_quoting(c: char) -> bool {
    is_ws(c) || c == '"' || c == '\'' || c == '\\' || c == '$' || c == '`' || c == '!' || c
        == '#' || c == '&' || c == '|' || c == ';' || c == '(' || c == ')' || c == '{' || c
        == '}' || c == '[' || c == ']' || c == '<' || c == '>' || c == '?' || c == '*' || c
        == '~'
}

/// The quote character.
pub open spec fn quote() -> Seq<char> {
    seq!['\'']
}

/// What a quote becomes inside a quoted word: close the quotes, an escaped
/// quote, reopen the quotes.
pub open spec fn escaped_quote() -> Seq<char> {
    seq!['\'', '\\', '\'', '\'']
}

/// The shell word for `s`: `s` itself when no character of it needs quoting,
/// otherwise `s` in single quotes, each quote in it written as `'\''`.
pub open spec fn shell_escaped(s: Seq<char>) -> Seq<char> {
    if exists|i: int| 0 <= i < s.len() && needs_quoting(s[i]) {
        quote() + replace(s, quote(), escaped_quote()) + quote()
    } else {
        s
    }
}

/// The text that the shell reads from `t`, taken as the rest of a word
/// made of literal characters, backslash-escaped characters and
/// single-quoted parts; `None` for anything else (an unclosed quote, or a
/// character the shell would expand or split on).
pub open spec fn word_text(t: Seq<char>) -> Option<Seq<char>>
    decreases t.len(),
{
    if t.len() == 0 {
        Some(seq![])
    } else if t[0] == '\'' {
        let rest = t.drop_first();
        let k = index_of(rest, '\'');
        if k < rest.len() {
            match word_text(rest.skip(k as int + 1)) {
                Some(v) => Some(rest.take(k as int) + v),
                None => None,
            }
        } else {
            None
        }
    } else if t[0] == '\\' {
        if t.len() >= 2 && t[1] != '\n' {
            match word_text(t.skip(2)) {
                Some(v) => Some(seq![t[1]] + v),
                None => None,
            }
        } else {
            None
        }
    } else if needs_quoting(t[0]) {
        None
    } else {
        match word_text(t.drop_first()) {
            Some(v) => Some(seq![t[0]] + v),
            None => None,
        }
    }
}

/// The text that the shell reads from the word `t`: `None` when `t` is not
/// one word, and for the empty text, which the shell reads as no word at
/// all.
pub open spec fn shell_word_value(t: Seq<char>) -> Option<Seq<char>> {
    if t.len() == 0 {
        None
    } else {
        word_text(t)
    }
}

proof fn lemma_plain_word(s: Seq<char>)
    requires
        forall|i: int| 0 <= i < s.len() ==> !needs_quoting(s[i]),
    ensures
        word_text(s) == Some(s),
    decreases s.len(),
{
    if s.len() > 0 {
        let t = s.drop_first();
        assert forall|i: int| 0 <= i < t.len() implies !needs_quoting(t[i]) by {
            assert(t[i] == s[i + 1]);
        }
        lemma_plain_word(t);
        assert(!needs_quoting(s[0]));
        assert(seq![s[0]] + t =~= s);
    }
}

proof fn lemma_replace_char_absent(s: Seq<char>, c: char, to: Seq<char>)
    requires
        index_of(s, c) == s.len(),
    ensures
        replace(s, seq![c], to) == s,
    decreases s.len(),
{
    if s.len() > 0 {
        lemma_index_of(s, c);
        assert(s[0] != c);
        let t = s.drop_first();
        lemma_index_of(t, c);
        lemma_replace_char_absent(t, c, to);
        assert(s.take(1) != seq![c]) by {
            assert(s.take(1)[0] == s[0]);
        }
        assert(seq![s[0]] + t =~= s);
    }
}

proof fn lemma_replace_char_first(s: Seq<char>, c: char, to: Seq<char>)
    requires
        index_of(s, c) < s.len(),
    ensures
        replace(s, seq![c], to) == s.take(index_of(s, c) as int) + to + replace(
            s.skip(index_of(s, c) as int + 1),
            seq![c],
            to,
        ),
    decreases s.len(),
{
    let k = index_of(s, c);
    lemma_index_of(s, c);
    if k == 0 {
        assert(s.take(1) =~= seq![c]);
        assert(s.take(0) + to =~= to);
    } else {
        assert(s[0] != c);
        assert(s.take(1) != seq![c]) by {
            assert(s.take(1)[0] == s[0]);
        }
        let t = s.drop_first();
        assert(index_of(t, c) == k - 1);
        lemma_replace_char_first(t, c, to);
        assert(t.skip(index_of(t, c) as int + 1) =~= s.skip(k as int + 1));
        assert(seq![s[0]] + t.take(k - 1) =~= s.take(k as int));
        assert(seq![s[0]] + (t.take(k - 1) + to + replace(s.skip(k as int + 1), seq![c], to))
            =~= s.take(k as int) + to + replace(s.skip(k as int + 1), seq![c], to));
    }
}

proof fn lemma_quoted_word(s: Seq<char>)
    ensures
        word_text(quote() + replace(s, quote(), escaped_quote()) + quote()) == Some(s),
    decreases s.len(),
{
    let k = index_of(s, '\'');
    lemma_index_of(s, '\'');
    let t = quote() + replace(s, quote(), escaped_quote()) + quote();
    if k == s.len() {
        lemma_replace_char_absent(s, '\'', escaped_quote());
        assert(t[0] == '\'');
        let rest = t.drop_first();
        assert(rest =~= s + quote());
        assert forall|j: int| 0 <= j < s.len() implies rest[j] != '\'' by {
            assert(rest[j] == s[j]);
        }
        lemma_index_of_unique(rest, '\'', s.len() as int);
        assert(rest.take(s.len() as int) =~= s);
        assert(rest.skip(s.len() as int + 1) =~= Seq::<char>::empty());
        assert(word_text(Seq::<char>::empty()) == Some(Seq::<char>::empty()));
        assert(s + Seq::<char>::empty() =~= s);
    } else {
        let a = s.take(k as int);
        let b = s.skip(k as int + 1);
        lemma_replace_char_first(s, '\'', escaped_quote());
        let rb = replace(b, quote(), escaped_quote());
        assert(t =~= quote() + a + escaped_quote() + rb + quote());
        assert(t[0] == '\'');
        let rest = t.drop_first();
        assert(rest =~= a + escaped_quote() + rb + quote());
        assert forall|j: int| 0 <= j < k implies rest[j] != '\'' by {
            assert(rest[j] == s[j]);
        }
        assert(rest[k as int] == '\'');
        lemma_index_of_unique(rest, '\'', k as int);
        assert(rest.take(k as int) =~= a);
        let u = rest.skip(k as int + 1);
        assert(u =~= seq!['\\', '\''] + (quote() + rb + quote()));
        assert(u[0] == '\\');
        assert(u[1] == '\'');
        assert(u.skip(2) =~= quote() + rb + quote());
        lemma_quoted_word(b);
        assert(word_text(u) == Some(seq!['\''] + b));
        assert(a + (seq!['\''] + b) =~= s);
    }
}

/// The law of shell quoting: the shell reads back exactly the text that was
/// escaped, as one word. (The empty text is left as it is, and the shell
/// reads it as no word at all.)
pub proof fn lemma_shell_escape_roundtrip(s: Seq<char>)
    requires
        s.len() > 0,
    ensures
        shell_word_value(shell_escaped(s)) == Some(s),
{
    if exists|i: int| 0 <= i < s.len() && needs_quoting(s[i]) {
        lemma_quoted_word(s);
    } else {
        lemma_plain_word(s);
    }
}

/// Decides `needs_quoting`.
pub fn needs_quoting_exec(c: char) -> (r: bool)
    ensures
        r == needs_quoting(c),
{
    is_ws_exec(c) || c == '"' || c == '\'' || c == '\\' || c == '$' || c == '`' || c == '!'
        || c == '#' || c == '&' || c == '|' || c == ';' || c == '(' || c == ')' || c == '{'
        || c == '}' || c == '[' || c == ']' || c == '<' || c == '>' || c == '?' || c == '*'
        || c == '~'
}

/// Quotes `s` for the shell when it holds whitespace or a character the shell
/// treats specially; leaves it as it is otherwise.
pub fn shell_escape(s: &str) -> (r: String)
    ensures
        r@ == shell_escaped(s@),
        s@.len() > 0 ==> shell_word_value(r@) == Some(s@),
{
    proof {
        if s@.len() > 0 {
            lemma_shell_escape_roundtrip(s@);
        }
    }
    let v = chars_of(s);
    let mut i: usize = 0;
    while i < v.len() && !needs_quoting_exec(v[i])
        invariant
            i <= v.len(),
            forall|k: int| 0 <= k < i ==> !needs_quoting(v@[k]),
        decreases v.len() - i,
    {
        i = i + 1;
    }
    if i < v.len() {
        let mut r = String::new();
        push_char(&mut r, '\'');
        let body = replace_str(s, "'", "'\\''");
        proof {
            reveal_strlit("'");
            reveal_strlit("'\\''");
            assert("'"@ =~= quote());
            assert("'\\''"@ =~= escaped_quote());
        }
        r.append(body.as_str());
        push_char(&mut r, '\'');
        assert(r@ =~= quote() + replace(s@, quote(), escaped_quote()) + quote());
        r
    } else {
        assert(!exists|k: int| 0 <= k < s@.len() && needs_quoting(s@[k]));
        owned(s)
    }
}

} // verus!
