//! Splitting a command line into words.

use vstd::prelude::*;
use vstd::std_specs::iter::IteratorSpec;

verus! {

/// What the lexer remembers between two characters.
pub ghost struct LexState {
    /// The words that are complete.
    pub tokens: Seq<Seq<char>>,
    /// The word that is being read.
    pub word: Seq<char>,
    /// Whether a quoted section is open.
    pub quoted: bool,
    /// Whether the last character was a backslash that escapes the next one.
    pub escaped: bool,
}

/// The state before any character is read.
pub open spec fn lex_start() -> LexState {
    LexState { tokens: Seq::empty(), word: Seq::empty(), quoted: false, escaped: false }
}

/// The state after reading `c` in state `st`.
///
/// A character that follows an escaping backslash goes into the word as it
/// is. Otherwise a double quote opens or closes a quoted section, a backslash
/// escapes the next character, a space outside a quoted section ends the
/// word, and any other character goes into the word.
pub open spec fn lex_step(st: LexState, c: char) -> LexState {
    if st.escaped {
        LexState { word: st.word.push(c), escaped: false, ..st }
    } else if c == '"' {
        LexState { quoted: !st.quoted, ..st }
    } else if c == '\\' {
        LexState { escaped: true, ..st }
    } else if c == ' ' && !st.quoted {
        LexState { tokens: st.tokens.push(st.word), word: Seq::empty(), ..st }
    } else {
        LexState { word: st.word.push(c), ..st }
    }
}

/// The state after reading all of `input` in state `st`.
pub open spec fn lex_from(st: LexState, input: Seq<char>) -> LexState
    decreases input.len(),
{
    if input.len() == 0 {
        st
    } else {
        lex_step(lex_from(st, input.drop_last()), input.last())
    }
}

/// The words of a state at the end of the input: the complete ones, and the
/// word being read unless it is empty.
pub open spec fn lex_finish(st: LexState) -> Seq<Seq<char>> {
    if st.word.len() > 0 {
        st.tokens.push(st.word)
    } else {
        st.tokens
    }
}

/// The words of `input`.
pub open spec fn lex_spec(input: Seq<char>) -> Seq<Seq<char>> {
    lex_finish(lex_from(lex_start(), input))
}

/// Whether reading `text` in state `st` adds all of it to the word: no
/// character is pending an escape, and `text` holds no double quote, no
/// backslash and, outside a quoted section, no space.
pub open spec fn is_literal(st: LexState, text: Seq<char>) -> bool {
    &&& !st.escaped
    &&& forall|i: int|
        0 <= i < text.len() ==> text[i] != '"' && text[i] != '\\' && (text[i] == ' '
            ==> st.quoted)
}

/// Whether `word` is not empty and holds no space, double quote or backslash.
pub open spec fn is_plain_word(word: Seq<char>) -> bool {
    &&& word.len() > 0
    &&& forall|i: int|
        0 <= i < word.len() ==> word[i] != ' ' && word[i] != '"' && word[i] != '\\'
}

/// The words `words` with one space between each two.
pub open spec fn join_words(words: Seq<Seq<char>>) -> Seq<char>
    decreases words.len(),
{
    if words.len() == 0 {
        Seq::empty()
    } else if words.len() == 1 {
        words[0]
    } else {
        join_words(words.drop_last()) + seq![' '] + words.last()
    }
}

/// Splits a command line into its words.
pub fn lex(command: &String) -> (tokens: Vec<String>)
    ensures
        tokens.deep_view() == lex_spec(command@),
{
    let mut tokens: Vec<String> = Vec::new();
    let mut word = String::new();
    let mut quoted = false;
    let mut escaped = false;
    assert(tokens.deep_view() =~= Seq::<Seq<char>>::empty());
    for c in it: command.as_str().chars()
        invariant
            it.seq() == command@,
            lex_from(lex_start(), command@.take(it.index() as int)) == (LexState {
                tokens: tokens.deep_view(),
                word: word@,
                quoted,
                escaped,
            }),
    {
        let ghost before = tokens.deep_view();
        proof {
            let read = command@.take(it.index() + 1);
            assert(read.drop_last() == command@.take(it.index() as int));
            assert(read.last() == c);
        }
        if escaped {
            escaped = false;
            word.push(c);
        } else if c == '"' {
            quoted = !quoted;
        } else if c == '\\' {
            escaped = true;
        } else if c == ' ' && !quoted {
            tokens.push(word);
            word = String::new();
            assert(tokens.deep_view() == before.push(tokens@.last()@));
        } else {
            word.push(c);
        }
    }
    assert(command@.take(command@.len() as int) == command@);
    if !word.as_str().is_empty() {
        let ghost before = tokens.deep_view();
        tokens.push(word);
        assert(tokens.deep_view() == before.push(tokens@.last()@));
    }
    tokens
}

/// An empty line has no words.
pub proof fn lemma_lex_empty()
    ensures
        lex_spec(Seq::<char>::empty()) == Seq::<Seq<char>>::empty(),
{
}

/// Reading a text of one character is one step.
pub proof fn lemma_lex_one(st: LexState, c: char)
    ensures
        lex_from(st, seq![c]) == lex_step(st, c),
{
    reveal_with_fuel(lex_from, 2);
    assert(seq![c].drop_last() == Seq::<char>::empty());
}

/// Reading two texts one after the other is reading them as one.
pub proof fn lemma_lex_concat(st: LexState, head: Seq<char>, tail: Seq<char>)
    ensures
        lex_from(st, head + tail) == lex_from(lex_from(st, head), tail),
    decreases tail.len(),
{
    if tail.len() == 0 {
        assert(head + tail == head);
    } else {
        lemma_lex_concat(st, head, tail.drop_last());
        assert((head + tail).drop_last() == head + tail.drop_last());
    }
}

/// A text without special characters goes into the word as it is; a space is
/// not special inside a quoted section.
pub proof fn lemma_lex_literal(st: LexState, text: Seq<char>)
    requires
        is_literal(st, text),
    ensures
        lex_from(st, text) == (LexState { word: st.word + text, ..st }),
    decreases text.len(),
{
    if text.len() == 0 {
        assert(st.word + text == st.word);
    } else {
        lemma_lex_literal(st, text.drop_last());
        assert(st.word + text == (st.word + text.drop_last()).push(text.last()));
    }
}

/// The character after a backslash goes into the word, whatever it is, and
/// the backslash does not.
pub proof fn lemma_lex_escape(st: LexState, c: char)
    requires
        !st.escaped,
    ensures
        lex_from(st, seq!['\\', c]) == (LexState { word: st.word.push(c), ..st }),
{
    lemma_lex_one(st, '\\');
    assert(seq!['\\', c].drop_last() == seq!['\\']);
}

/// A quoted section goes into the word with its spaces and without its
/// double quotes.
pub proof fn lemma_lex_quoted(st: LexState, body: Seq<char>)
    requires
        !st.escaped,
        !st.quoted,
        forall|i: int| 0 <= i < body.len() ==> body[i] != '"' && body[i] != '\\',
    ensures
        lex_from(st, seq!['"'] + body + seq!['"']) == (LexState { word: st.word + body, ..st }),
{
    let opened = LexState { quoted: true, ..st };
    lemma_lex_one(st, '"');
    lemma_lex_concat(st, seq!['"'], body);
    lemma_lex_literal(opened, body);
    lemma_lex_concat(st, seq!['"'] + body, seq!['"']);
    lemma_lex_one(lex_from(st, seq!['"'] + body), '"');
}

/// Words that hold no special character, joined by single spaces, are read
/// back as they were.
pub proof fn lemma_lex_join(words: Seq<Seq<char>>)
    requires
        forall|i: int| 0 <= i < words.len() ==> is_plain_word(#[trigger] words[i]),
    ensures
        lex_spec(join_words(words)) == words,
        words.len() > 0 ==> lex_from(lex_start(), join_words(words)) == (LexState {
            tokens: words.drop_last(),
            word: words.last(),
            quoted: false,
            escaped: false,
        }),
    decreases words.len(),
{
    if words.len() == 0 {
    } else if words.len() == 1 {
        assert(is_plain_word(words[0]));
        lemma_lex_literal(lex_start(), words[0]);
        assert(lex_start().word + words[0] == words[0]);
        assert(words.drop_last() == Seq::<Seq<char>>::empty());
        assert(words.drop_last().push(words.last()) == words);
    } else {
        let init = words.drop_last();
        let last = words.last();
        assert forall|i: int| 0 <= i < init.len() implies is_plain_word(#[trigger] init[i]) by {
            assert(init[i] == words[i]);
        }
        lemma_lex_join(init);
        let read_init = lex_from(lex_start(), join_words(init));
        lemma_lex_concat(lex_start(), join_words(init), seq![' ']);
        lemma_lex_one(read_init, ' ');
        let spaced = lex_from(read_init, seq![' ']);
        assert(init.drop_last().push(init.last()) == init);
        assert(spaced == LexState {
            tokens: init,
            word: Seq::<char>::empty(),
            quoted: false,
            escaped: false,
        });
        assert(is_plain_word(last));
        lemma_lex_concat(lex_start(), join_words(init) + seq![' '], last);
        lemma_lex_literal(spaced, last);
        assert(spaced.word + last == last);
        assert(init.push(last) == words);
    }
}

} // verus!
