//! From words to commands.

use crate::record::{make_record, Record, RecordView};
use crate::text::lowercase;
use vstd::prelude::*;
use vstd::string::StringExecFns;

verus! {

/// A command, ready to be run against a store.
#[derive(Debug, PartialEq, Eq)]
pub enum Action {
    /// Look up the record of a key.
    Get(String),
    /// Bind a key to a record.
    Put(String, Record),
}

/// The mathematical value of an [`Action`].
pub ghost enum ActionView {
    Get(Seq<char>),
    Put(Seq<char>, RecordView),
}

impl View for Action {
    type V = ActionView;

    open spec fn view(&self) -> ActionView {
        match self {
            Action::Get(key) => ActionView::Get(key@),
            Action::Put(key, value) => ActionView::Put(key@, value@),
        }
    }
}

/// The mathematical value of what parsing returns: a command, or the text of
/// an error.
pub open spec fn parsed_view(parsed: Result<Action, String>) -> Result<ActionView, Seq<char>> {
    match parsed {
        Ok(action) => Ok(action@),
        Err(message) => Err(message@),
    }
}

/// What the words `tokens` mean when their first word, in lower case, is
/// `command`.
///
/// `get` takes a key and `set` takes a key and a value, which is stored as a
/// string; with any other number of words they fail. Any other command fails
/// under its name.
pub open spec fn command_spec(command: Seq<char>, tokens: Seq<Seq<char>>) -> Result<
    ActionView,
    Seq<char>,
> {
    if command == "get"@ {
        if tokens.len() == 2 {
            Ok(ActionView::Get(tokens[1]))
        } else {
            Err("expecting: get <key>"@)
        }
    } else if command == "set"@ {
        if tokens.len() == 3 {
            Ok(ActionView::Put(tokens[1], RecordView::Str(tokens[2])))
        } else {
            Err("expecting: set <key> <value>"@)
        }
    } else {
        Err("invalid command "@ + command)
    }
}

/// What the words `tokens` mean. No words at all fail with an empty message;
/// otherwise the first word, whatever its case, is the command.
pub open spec fn parse_spec(tokens: Seq<Seq<char>>) -> Result<ActionView, Seq<char>> {
    if tokens.len() == 0 {
        Err(Seq::empty())
    } else {
        command_spec(lowercase(tokens[0]), tokens)
    }
}

/// Parses the words `tokens`, whose first word in lower case is `command`.
pub fn parse_command(command: &String, tokens: &Vec<String>) -> (parsed: Result<Action, String>)
    ensures
        parsed_view(parsed) == command_spec(command@, tokens.deep_view()),
{
    let length = tokens.len();
    if *command == String::from_str("get") {
        if length == 2 {
            Ok(Action::Get(tokens[1].clone()))
        } else {
            Err(String::from_str("expecting: get <key>"))
        }
    } else if *command == String::from_str("set") {
        if length == 3 {
            Ok(Action::Put(tokens[1].clone(), make_record(&tokens[2])))
        } else {
            Err(String::from_str("expecting: set <key> <value>"))
        }
    } else {
        let mut message = String::from_str("invalid command ");
        message.append(command.as_str());
        Err(message)
    }
}

/// Parses the words of a command line.
pub fn parse(input_vec: &Vec<String>) -> (parsed: Result<Action, String>)
    ensures
        parsed_view(parsed) == parse_spec(input_vec.deep_view()),
{
    if input_vec.len() == 0 {
        return Err(String::new());
    }
    let command = input_vec[0].as_str().to_lowercase();
    parse_command(&command, input_vec)
}

} // verus!
