//! What a line typed at an interactive prompt means.

use crate::text::trimmed;
use vstd::prelude::*;
use vstd::string::StringExecFns;

verus! {

/// What the user typed at the prompt.
#[derive(Debug)]
pub enum Input {
    /// A command line to run.
    Command(String),
    /// The request to leave.
    Quit,
}

/// The mathematical value of an [`Input`].
pub ghost enum InputView {
    Command(Seq<char>),
    Quit,
}

impl View for Input {
    type V = InputView;

    open spec fn view(&self) -> InputView {
        match self {
            Input::Command(line) => InputView::Command(line@),
            Input::Quit => InputView::Quit,
        }
    }
}

/// What the typed line `line` means: without the white space at its ends,
/// `q` asks to leave and anything else is a command line.
pub open spec fn read_input_spec(line: Seq<char>) -> InputView {
    if trimmed(line) == "q"@ {
        InputView::Quit
    } else {
        InputView::Command(trimmed(line))
    }
}

/// Tells what a typed line means.
pub fn read_input(line: &String) -> (input: Input)
    ensures
        input@ == read_input_spec(line@),
{
    let as_string = line.as_str().trim().to_owned();
    if as_string == String::from_str("q") {
        Input::Quit
    } else {
        Input::Command(as_string)
    }
}

} // verus!
