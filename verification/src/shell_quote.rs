//! Quoting of one word for a POSIX shell.

use crate::text::is_ascii_alnum;
use vstd::prelude::*;

verus! {

/// A character that a POSIX shell takes for itself outside of quotes.
pub open spec fn is_plain(c: char) -> bool {
    ||| is_ascii_alnum(c)
    ||| c == '@' || c == '%' || c == '_' || c == '+' || c == '=' || c == ':' || c == ',' || c == '.'
        || c == '/' || c == '-'
}

/// A text made of plain characters alone.
pub open spec fn all_plain(text: Seq<char>) -> bool {
    forall|i: int| 0 <= i < text.len() ==> is_plain(#[trigger] text[i])
}

/// One character as it stands between single quotes. A single quote cannot stand
/// there: the quotes are closed, an escaped one is written, and they are opened
/// again.
pub open spec fn quoted_char(c: char) -> Seq<char> {
    if c == '\'' {
        seq!['\'', '\\', '\'', '\'']
    } else {
        seq![c]
    }
}

/// A text as it stands between single quotes.
pub open spec fn quoted_body(text: Seq<char>) -> Seq<char>
    decreases text.len(),
{
    if text.len() == 0 {
        Seq::empty()
    } else {
        quoted_char(text[0]) + quoted_body(text.drop_first())
    }
}

/// A text as one word of a shell command line: as it is where it is not empty and
/// wholly plain, in single quotes otherwise.
pub open spec fn quoted(text: Seq<char>) -> Seq<char> {
    if text.len() > 0 && all_plain(text) {
        text
    } else {
        seq!['\''] + quoted_body(text) + seq!['\'']
    }
}

/// A character that a shell does not take for itself outside of quotes: it ends a
/// word or a command, starts an expansion, a pattern, a redirection, a comment or a
/// quotation, or means something of the kind to some shell. Controls, blanks, and
/// whatever is not ASCII count among these.
pub open spec fn is_special(c: char) -> bool {
    ||| c <= ' ' || c >= '\u{7f}'
    ||| c == '|' || c == '&' || c == ';' || c == '<' || c == '>' || c == '(' || c == ')'
    ||| c == '$' || c == '`' || c == '\\' || c == '"' || c == '\''
    ||| c == '*' || c == '?' || c == '[' || c == ']' || c == '#' || c == '~' || c == '!'
    ||| c == '{' || c == '}' || c == '^'
}

/// What a POSIX shell has read of a word, once it has read `line` too. `quoting`
/// says whether the reading started inside single quotes, `word` what had been
/// read before. There is none where `line` does not end the word properly: it
/// ends inside quotes or behind a backslash, or it holds a special character
/// outside of quotes.
pub open spec fn read_word(line: Seq<char>, quoting: bool, word: Seq<char>) -> Option<Seq<char>>
    decreases line.len(),
{
    if line.len() == 0 {
        if quoting {
            None
        } else {
            Some(word)
        }
    } else if line[0] == '\'' {
        read_word(line.drop_first(), !quoting, word)
    } else if quoting {
        read_word(line.drop_first(), true, word.push(line[0]))
    } else if line[0] == '\\' {
        if line.len() >= 2 && line[1] != '\n' {
            read_word(line.skip(2), false, word.push(line[1]))
        } else {
            None
        }
    } else if is_special(line[0]) {
        None
    } else {
        read_word(line.drop_first(), false, word.push(line[0]))
    }
}

/// The single word that a POSIX shell makes of `line`, after quote removal.
pub open spec fn shell_word(line: Seq<char>) -> Option<Seq<char>> {
    if line.len() == 0 {
        None
    } else {
        read_word(line, false, Seq::empty())
    }
}

/// Inside quotes, the quoted form of a text reads as that text.
proof fn lemma_read_quoted_body(text: Seq<char>, rest: Seq<char>, word: Seq<char>)
    ensures
        read_word(quoted_body(text) + rest, true, word) == read_word(rest, true, word + text),
    decreases text.len(),
{
    if text.len() == 0 {
        assert(quoted_body(text) + rest == rest);
        assert(word + text == word);
    } else {
        let tail = quoted_body(text.drop_first()) + rest;
        let line = quoted_body(text) + rest;
        let next = word.push(text[0]);
        if text[0] == '\'' {
            reveal_with_fuel(read_word, 5);
            assert(line.drop_first().skip(2).drop_first() == tail);
            assert(line[0] == '\'' && line[1] == '\\' && line[2] == '\'' && line[3] == '\'');
            assert(line.drop_first()[0] == '\\');
            assert(line.drop_first()[1] == '\'');
            assert(line.drop_first().skip(2)[0] == '\'');
        } else {
            assert(line.drop_first() == tail);
        }
        lemma_read_quoted_body(text.drop_first(), rest, next);
        assert(next + text.drop_first() == word + text);
    }
}

/// A plain text reads as itself.
proof fn lemma_read_plain(text: Seq<char>, word: Seq<char>)
    requires
        all_plain(text),
    ensures
        read_word(text, false, word) == Some(word + text),
    decreases text.len(),
{
    if text.len() == 0 {
        assert(word + text == word);
    } else {
        assert(is_plain(text[0]));
        let rest = text.drop_first();
        assert forall|i: int| 0 <= i < rest.len() implies is_plain(#[trigger] rest[i]) by {
            assert(rest[i] == text[i + 1]);
        }
        lemma_read_plain(rest, word.push(text[0]));
        assert(word.push(text[0]) + rest == word + text);
    }
}

/// Quoting is undone by the shell: whatever the text, the shell reads its quoted
/// form as one word, which is that text.
pub proof fn law_shell_reads_back_the_quoted_text(text: Seq<char>)
    ensures
        shell_word(quoted(text)) == Some(text),
{
    if text.len() > 0 && all_plain(text) {
        lemma_read_plain(text, Seq::empty());
        assert(Seq::<char>::empty() + text == text);
    } else {
        let line = quoted(text);
        let close = seq!['\''];
        assert(line.drop_first() == quoted_body(text) + close);
        lemma_read_quoted_body(text, close, Seq::empty());
        assert(Seq::<char>::empty() + text == text);
        assert(close.drop_first().len() == 0);
        reveal_with_fuel(read_word, 2);
    }
}

/// Different texts have different quoted forms.
pub proof fn law_quoting_is_injective(a: Seq<char>, b: Seq<char>)
    requires
        quoted(a) == quoted(b),
    ensures
        a == b,
{
    law_shell_reads_back_the_quoted_text(a);
    law_shell_reads_back_the_quoted_text(b);
}

/// What stands without quotes and what is special to a shell share no character,
/// and every character is one or the other.
pub proof fn law_a_character_is_plain_or_special(c: char)
    ensures
        is_plain(c) <==> !is_special(c),
{
}

/// A word that does not start with a quote is the text itself, and holds ASCII
/// letters, numerals, and ten other characters alone: none of them is special to a
/// shell. Every other word starts and ends with a quote. Which of the two it is,
/// the characters of the text decide, all of them.
pub proof fn law_only_ordinary_words_go_unquoted(text: Seq<char>)
    ensures
        quoted(text).len() > 0,
        quoted(text)[0] != '\'' ==> quoted(text) == text,
        quoted(text)[0] != '\'' ==> forall|i: int|
            0 <= i < quoted(text).len() ==> {
                let c = #[trigger] quoted(text)[i];
                ('a' <= c <= 'z') || ('A' <= c <= 'Z') || ('0' <= c <= '9') || c == '@'
                    || c == '%' || c == '_' || c == '+' || c == '=' || c == ':' || c == ','
                    || c == '.' || c == '/' || c == '-'
            },
        quoted(text)[0] != '\'' ==> forall|i: int|
            0 <= i < quoted(text).len() ==> !is_special(#[trigger] quoted(text)[i]),
        quoted(text)[0] == '\'' ==> quoted(text).len() >= 2 && quoted(text).last() == '\'',
        quoted(text)[0] != '\'' <==> text.len() > 0 && forall|i: int|
            0 <= i < text.len() ==> {
                let c = #[trigger] text[i];
                ('a' <= c <= 'z') || ('A' <= c <= 'Z') || ('0' <= c <= '9') || c == '@'
                    || c == '%' || c == '_' || c == '+' || c == '=' || c == ':' || c == ','
                    || c == '.' || c == '/' || c == '-'
            },
{
    if text.len() > 0 && all_plain(text) {
        assert forall|i: int| 0 <= i < text.len() implies {
            let c = #[trigger] text[i];
            ('a' <= c <= 'z') || ('A' <= c <= 'Z') || ('0' <= c <= '9') || c == '@'
                || c == '%' || c == '_' || c == '+' || c == '=' || c == ':' || c == ','
                || c == '.' || c == '/' || c == '-'
        } by {
            assert(is_plain(text[i]));
        }
        assert(is_plain(text[0]));
    } else if text.len() > 0 {
        let i = choose|i: int| 0 <= i < text.len() && !is_plain(#[trigger] text[i]);
        assert(!is_plain(text[i]));
    }
}

/// Inside quotes every character stands for itself, in order, but for a single
/// quote, which leaves the quotes, is escaped, and enters them again. So the form
/// of two texts, one behind the other, is that of the first and then that of the
/// second.
pub proof fn law_quoting_goes_character_by_character(a: Seq<char>, b: Seq<char>, c: char)
    ensures
        quoted_body(a + b) == quoted_body(a) + quoted_body(b),
        quoted_body(seq!['\'']) == seq!['\'', '\\', '\'', '\''],
        c != '\'' ==> quoted_body(seq![c]) == seq![c],
        quoted(a)[0] == '\'' ==> quoted(a) == seq!['\''] + quoted_body(a) + seq!['\''],
    decreases a.len(),
{
    reveal_with_fuel(quoted_body, 2);
    assert(seq!['\''].drop_first() == Seq::<char>::empty());
    assert(seq![c].drop_first() == Seq::<char>::empty());
    assert(quoted_char(c) + Seq::<char>::empty() == quoted_char(c));
    assert(quoted_char('\'') + Seq::<char>::empty() == quoted_char('\''));
    law_only_ordinary_words_go_unquoted(a);
    if a.len() == 0 {
        assert(a + b == b);
        assert(quoted_body(a) + quoted_body(b) == quoted_body(b));
    } else {
        law_quoting_goes_character_by_character(a.drop_first(), b, c);
        assert((a + b).drop_first() == a.drop_first() + b);
        assert(quoted_char(a[0]) + (quoted_body(a.drop_first()) + quoted_body(b)) == quoted_body(a)
            + quoted_body(b));
        if all_plain(a) {
            assert(is_plain(a[0]));
        }
    }
}

/// A text without single quotes stands between its quotes as it is.
pub proof fn law_a_text_without_quotes_is_kept_between_them(text: Seq<char>)
    requires
        forall|i: int| 0 <= i < text.len() ==> text[i] != '\'',
    ensures
        quoted(text) == text || quoted(text) == seq!['\''] + text + seq!['\''],
{
    lemma_body_without_quotes(text);
}

/// A text without single quotes is its own form between them.
proof fn lemma_body_without_quotes(text: Seq<char>)
    requires
        forall|i: int| 0 <= i < text.len() ==> text[i] != '\'',
    ensures
        quoted_body(text) == text,
    decreases text.len(),
{
    if text.len() > 0 {
        let rest = text.drop_first();
        assert forall|i: int| 0 <= i < rest.len() implies rest[i] != '\'' by {
            assert(rest[i] == text[i + 1]);
        }
        lemma_body_without_quotes(rest);
        assert(seq![text[0]] + rest == text);
    }
}

/// Whether a shell takes `c` for itself outside of quotes.
fn is_plain_char(c: char) -> (plain: bool)
    ensures
        plain == is_plain(c),
{
    ('a' <= c && c <= 'z') || ('A' <= c && c <= 'Z') || ('0' <= c && c <= '9') || c == '@' || c
        == '%' || c == '_' || c == '+' || c == '=' || c == ':' || c == ',' || c == '.' || c == '/'
        || c == '-'
}

/// Whether `value` can stand as a word without quotes.
fn is_plain_text(value: &str) -> (plain: bool)
    ensures
        plain == all_plain(value@),
{
    for c in it: value.chars()
        invariant
            it.seq() == value@,
            forall|i: int| 0 <= i < it.index() ==> is_plain(#[trigger] value@[i]),
    {
        if !is_plain_char(c) {
            assert(!is_plain(value@[it.index() as int]));
            return false;
        }
    }
    true
}

/// `value` as one word of a POSIX shell command line.
pub fn shell_quote(value: &str) -> (word: String)
    ensures
        word@ == quoted(value@),
        shell_word(word@) == Some(value@),
        word@.len() > 0,
        word@[0] != '\'' ==> word@ == value@ && forall|i: int|
            0 <= i < word@.len() ==> {
                let c = #[trigger] word@[i];
                ('a' <= c <= 'z') || ('A' <= c <= 'Z') || ('0' <= c <= '9') || c == '@'
                    || c == '%' || c == '_' || c == '+' || c == '=' || c == ':' || c == ','
                    || c == '.' || c == '/' || c == '-'
            },
        word@[0] == '\'' ==> word@.last() == '\'' && (value@.len() == 0 || exists|i: int|
            0 <= i < value@.len() && {
                let c = #[trigger] value@[i];
                !(('a' <= c <= 'z') || ('A' <= c <= 'Z') || ('0' <= c <= '9') || c == '@'
                    || c == '%' || c == '_' || c == '+' || c == '=' || c == ':' || c == ','
                    || c == '.' || c == '/' || c == '-')
            }),
{
    proof {
        law_shell_reads_back_the_quoted_text(value@);
        law_only_ordinary_words_go_unquoted(value@);
    }
    if !value.is_empty() && is_plain_text(value) {
        return value.to_string();
    }
    let mut word = String::new();
    word.push('\'');
    assert(value@.skip(0) == value@);
    for c in it: value.chars()
        invariant
            it.seq() == value@,
            word@ + quoted_body(value@.skip(it.index() as int)) == seq!['\''] + quoted_body(value@),
    {
        let ghost before = word@;
        let ghost rest = value@.skip(it.index() as int);
        assert(rest[0] == c);
        assert(rest.drop_first() == value@.skip(it.index() + 1));
        if c == '\'' {
            word.push('\'');
            word.push('\\');
            word.push('\'');
            word.push('\'');
        } else {
            word.push(c);
        }
        assert(word@ == before + quoted_char(c));
        assert(word@ + quoted_body(rest.drop_first()) == before + (quoted_char(c) + quoted_body(
            rest.drop_first(),
        )));
    }
    assert(value@.skip(value@.len() as int).len() == 0);
    assert(word@ + Seq::<char>::empty() == word@);
    word.push('\'');
    assert(word@ == seq!['\''] + quoted_body(value@) + seq!['\'']);
    word
}

/// The program to run again on a reattach, as one word of a shell command line. A
/// program without a name is the multiplexer itself.
pub fn remote_reattach_program(program: &str) -> (word: String)
    ensures
        word@ == quoted(
            if program@.len() == 0 {
                "herdr"@
            } else {
                program@
            },
        ),
        program@.len() == 0 ==> shell_word(word@) == Some("herdr"@),
        program@.len() > 0 ==> shell_word(word@) == Some(program@),
{
    if program.is_empty() {
        shell_quote("herdr")
    } else {
        shell_quote(program)
    }
}

/// An argument of that program, as one word of a shell command line.
pub fn remote_reattach_argument(value: &str) -> (word: String)
    ensures
        word@ == quoted(value@),
        shell_word(word@) == Some(value@),
{
    shell_quote(value)
}

} // verus!
