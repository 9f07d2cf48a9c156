//! Running a command line against a store.

use crate::lexer::{lex, lex_spec};
use crate::parser::{parse, parse_spec, parsed_view, Action, ActionView};
use crate::record::{Record, RecordView};
use crate::store::{bind, get, lookup, Store};
use crate::text::trimmed;
use vstd::prelude::*;
use vstd::string::StringExecFns;

verus! {

/// The words `tokens`, each without the white space at its ends.
pub open spec fn normalize_spec(tokens: Seq<Seq<char>>) -> Seq<Seq<char>> {
    Seq::new(tokens.len(), |i: int| trimmed(tokens[i]))
}

/// The command that the line `input` stands for, or the text of the error.
pub open spec fn interpret_spec(input: Seq<char>) -> Result<ActionView, Seq<char>> {
    parse_spec(normalize_spec(lex_spec(input)))
}

/// The answer to a lookup: the string that was found, nothing for a key that
/// is bound to nothing, and a fixed text for a list.
pub open spec fn render_spec(found: Option<RecordView>) -> Seq<char> {
    match found {
        Some(RecordView::Str(text)) => text,
        Some(RecordView::List(_)) => "Not implemented"@,
        None => Seq::empty(),
    }
}

/// The answer to the command `action` on a store that holds `entries`.
pub open spec fn reply_spec(action: ActionView, entries: Map<Seq<char>, RecordView>) -> Seq<char> {
    match action {
        ActionView::Get(key) => render_spec(lookup(entries, key)),
        ActionView::Put(_, _) => "Ok"@,
    }
}

/// What a store that holds `entries` holds after the command `action`.
pub open spec fn effect_spec(action: ActionView, entries: Map<Seq<char>, RecordView>) -> Map<
    Seq<char>,
    RecordView,
> {
    match action {
        ActionView::Get(_) => entries,
        ActionView::Put(key, value) => bind(entries, key, value),
    }
}

/// The answer to the line `input` on a store that holds `entries`: that of
/// its command, or the text of the error.
pub open spec fn evaluate_reply(input: Seq<char>, entries: Map<Seq<char>, RecordView>) -> Seq<
    char,
> {
    match interpret_spec(input) {
        Ok(action) => reply_spec(action, entries),
        Err(message) => message,
    }
}

/// What a store that holds `entries` holds after the line `input`: a line
/// that is in error changes nothing.
pub open spec fn evaluate_effect(input: Seq<char>, entries: Map<Seq<char>, RecordView>) -> Map<
    Seq<char>,
    RecordView,
> {
    match interpret_spec(input) {
        Ok(action) => effect_spec(action, entries),
        Err(_) => entries,
    }
}

/// Removes the white space at the ends of each word.
pub fn normalize(tokens: &Vec<String>) -> (words: Vec<String>)
    ensures
        words.deep_view() == normalize_spec(tokens.deep_view()),
{
    let mut words: Vec<String> = Vec::new();
    let mut i: usize = 0;
    while i < tokens.len()
        invariant
            i <= tokens.len(),
            words.len() == i,
            forall|j: int| 0 <= j < i ==> words@[j]@ == trimmed(tokens@[j]@),
        decreases tokens.len() - i,
    {
        let word = tokens[i].as_str().trim().to_owned();
        words.push(word);
        i += 1;
    }
    assert(words.deep_view() =~= normalize_spec(tokens.deep_view()));
    words
}

/// Reads a command line: splits it into words, normalizes them and parses
/// them.
pub fn interpret(user_input: &String) -> (parsed: Result<Action, String>)
    ensures
        parsed_view(parsed) == interpret_spec(user_input@),
{
    let tokens = lex(user_input);
    let words = normalize(&tokens);
    parse(&words)
}

/// The text that answers a lookup.
pub fn render(found: Option<Record>) -> (reply: String)
    ensures
        reply@ == render_spec(found.deep_view()),
{
    match found {
        Some(Record::Str(text)) => text,
        Some(Record::List(_)) => String::from_str("Not implemented"),
        None => String::new(),
    }
}

/// Answers a lookup of `key`.
pub fn answer(db: &Store, key: &String) -> (reply: String)
    ensures
        reply@ == reply_spec(ActionView::Get(key@), db@),
{
    render(get(db, key))
}

/// Runs a command against the store and returns the answer.
pub fn execute(action: Action, db: &mut Store) -> (reply: String)
    ensures
        reply@ == reply_spec(action@, old(db)@),
        final(db)@ == effect_spec(action@, old(db)@),
{
    match action {
        Action::Get(key) => answer(db, &key),
        Action::Put(key, value) => {
            crate::store::set(db, key, value);
            String::from_str("Ok")
        },
    }
}

/// Runs a command line against the store and returns the text to send back.
pub fn evaluate(user_input: &String, db: &mut Store) -> (reply: String)
    ensures
        reply@ == evaluate_reply(user_input@, old(db)@),
        final(db)@ == evaluate_effect(user_input@, old(db)@),
{
    match interpret(user_input) {
        Ok(action) => execute(action, db),
        Err(message) => message,
    }
}

/// A key that was set to a string answers a lookup with that string.
pub proof fn lemma_get_after_set(
    entries: Map<Seq<char>, RecordView>,
    key: Seq<char>,
    value: Seq<char>,
)
    ensures
        reply_spec(
            ActionView::Get(key),
            effect_spec(ActionView::Put(key, RecordView::Str(value)), entries),
        ) == value,
{
}

/// The last write wins: after two values were set for one key, one after the
/// other, a lookup answers with the second.
pub proof fn lemma_last_write_wins(
    entries: Map<Seq<char>, RecordView>,
    key: Seq<char>,
    first: Seq<char>,
    second: Seq<char>,
)
    ensures
        reply_spec(
            ActionView::Get(key),
            effect_spec(
                ActionView::Put(key, RecordView::Str(second)),
                effect_spec(ActionView::Put(key, RecordView::Str(first)), entries),
            ),
        ) == second,
{
}

/// A lookup of a key that is bound to nothing answers with the empty string,
/// and no lookup changes the store.
pub proof fn lemma_get_absent(entries: Map<Seq<char>, RecordView>, key: Seq<char>)
    ensures
        !entries.contains_key(key) ==> reply_spec(ActionView::Get(key), entries) == Seq::<
            char,
        >::empty(),
        effect_spec(ActionView::Get(key), entries) == entries,
{
}

/// Lookups do not disturb each other: a lookup answers the same whether or
/// not another lookup ran before it.
pub proof fn lemma_lookups_agree(
    entries: Map<Seq<char>, RecordView>,
    key: Seq<char>,
    other: Seq<char>,
)
    ensures
        reply_spec(ActionView::Get(key), effect_spec(ActionView::Get(other), entries))
            == reply_spec(ActionView::Get(key), entries),
{
}

/// After a key is set, a lookup of it answers from the new value and a lookup
/// of any other key answers as before.
pub proof fn lemma_set_changes_one_answer(
    entries: Map<Seq<char>, RecordView>,
    key: Seq<char>,
    value: RecordView,
    looked_up: Seq<char>,
)
    ensures
        reply_spec(
            ActionView::Get(looked_up),
            effect_spec(ActionView::Put(key, value), entries),
        ) == if looked_up == key {
            render_spec(Some(value))
        } else {
            reply_spec(ActionView::Get(looked_up), entries)
        },
{
}

/// The same of command lines: a line that sets a key to a string answers
/// `Ok`, and after it a line that looks the key up answers with that string,
/// whatever was set before, and changes nothing.
pub proof fn lemma_evaluate_get_after_set(
    entries: Map<Seq<char>, RecordView>,
    set_line: Seq<char>,
    get_line: Seq<char>,
    key: Seq<char>,
    value: Seq<char>,
)
    requires
        interpret_spec(set_line) == Ok::<ActionView, Seq<char>>(
            ActionView::Put(key, RecordView::Str(value)),
        ),
        interpret_spec(get_line) == Ok::<ActionView, Seq<char>>(ActionView::Get(key)),
    ensures
        evaluate_reply(set_line, entries) == "Ok"@,
        evaluate_reply(get_line, evaluate_effect(set_line, entries)) == value,
        evaluate_effect(get_line, evaluate_effect(set_line, entries)) == evaluate_effect(
            set_line,
            entries,
        ),
{
}

} // verus!
