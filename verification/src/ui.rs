//! Reading what the user typed at the prompt.
use vstd::prelude::*;
use crate::text::{chars_of, split_seq, split_str, string_of};

verus! {

/// What a line typed at the prompt asks for.
#[derive(Debug, PartialEq, Eq)]
pub enum UiCommand {
    /// Nothing was typed.
    Nothing,
    /// `/exit` or `/quit`: leave the program.
    Exit,
    /// `/help`: show the list of commands.
    Help,
    /// `/model NAME`: use the model `NAME`.
    SetModel(String),
    /// `/model` alone: show the model in use.
    ShowModel,
    /// Another word starting with `/`, which is no command.
    Unknown(String),
    /// Anything else: a request for the agents.
    Prompt(String),
}

/// The mathematical content of a [`UiCommand`].
pub enum UiCommandView {
    Nothing,
    Exit,
    Help,
    SetModel(Seq<char>),
    ShowModel,
    Unknown(Seq<char>),
    Prompt(Seq<char>),
}

impl View for UiCommand {
    type V = UiCommandView;

    open spec fn view(&self) -> UiCommandView {
        match self {
            UiCommand::Nothing => UiCommandView::Nothing,
            UiCommand::Exit => UiCommandView::Exit,
            UiCommand::Help => UiCommandView::Help,
            UiCommand::SetModel(m) => UiCommandView::SetModel(m@),
            UiCommand::ShowModel => UiCommandView::ShowModel,
            UiCommand::Unknown(c) => UiCommandView::Unknown(c@),
            UiCommand::Prompt(p) => UiCommandView::Prompt(p@),
        }
    }
}

/// The line without its last character (the newline that ended it), if it
/// has one.
pub open spec fn without_last_char(s: Seq<char>) -> Seq<char> {
    if s.len() > 0 {
        s.drop_last()
    } else {
        s
    }
}

/// What a raw line read at the prompt (newline included) asks for.
pub open spec fn spec_read_command(raw: Seq<char>) -> UiCommandView {
    let input = without_last_char(raw);
    if input.len() == 0 {
        UiCommandView::Nothing
    } else if input[0] == '/' {
        let words = split_seq(input, " "@);
        let command = words[0];
        if command == "/exit"@ || command == "/quit"@ {
            UiCommandView::Exit
        } else if command == "/help"@ {
            UiCommandView::Help
        } else if command == "/model"@ {
            if words.len() > 1 {
                UiCommandView::SetModel(words[1])
            } else {
                UiCommandView::ShowModel
            }
        } else {
            UiCommandView::Unknown(command)
        }
    } else {
        UiCommandView::Prompt(input)
    }
}

/// Reads what a raw line typed at the prompt (newline included) asks for.
pub fn read_command(raw: &str) -> (r: UiCommand)
    ensures
        r@ == spec_read_command(raw@),
{
    proof {
        reveal_strlit(" ");
    }
    let chars = chars_of(raw);
    let keep = if chars.len() > 0 {
        chars.len() - 1
    } else {
        0
    };
    let trimmed = chars.as_slice().split_at(keep).0;
    assert(trimmed@ =~= without_last_char(raw@));
    if trimmed.len() == 0 {
        return UiCommand::Nothing;
    }
    let input = string_of(trimmed);
    if trimmed[0] != '/' {
        return UiCommand::Prompt(input);
    }
    let mut words = split_str(input.as_str(), " ");
    proof {
        crate::text::lemma_split_from_nonempty(input@, " "@, Seq::empty());
    }
    let ghost wv = words.deep_view();
    assert(wv[0] == words@[0]@);
    let command = words[0].clone();
    if command == String::from_str("/exit") || command == String::from_str("/quit") {
        UiCommand::Exit
    } else if command == String::from_str("/help") {
        UiCommand::Help
    } else if command == String::from_str("/model") {
        if words.len() > 1 {
            assert(wv[1] == words@[1]@);
            let model = words.remove(1);
            UiCommand::SetModel(model)
        } else {
            UiCommand::ShowModel
        }
    } else {
        UiCommand::Unknown(command)
    }
}

/// The line that shows the model in use.
pub fn current_model_message(model: &str) -> (r: String)
    ensures
        r@ == "Current model: "@ + model@,
{
    let mut r = String::from_str("Current model: ");
    r.append(model);
    r
}

/// The line that answers a word starting with `/` which is no command.
pub fn unknown_command_message(command: &str) -> (r: String)
    ensures
        r@ == "Unknown command : "@ + command@ + ".\nType '/help' for a list of commands."@,
{
    let mut r = String::from_str("Unknown command : ");
    r.append(command);
    r.append(".\nType '/help' for a list of commands.");
    r
}

/// The model used until the user picks another one.
pub fn default_model() -> (r: String)
    ensures
        r@ == "gemma3:latest"@,
{
    String::from_str("gemma3:latest")
}

/// The model in use after a command: the one `/model NAME` picks, otherwise
/// the current one.
pub open spec fn spec_model_after(current: Seq<char>, command: UiCommandView) -> Seq<char> {
    match command {
        UiCommandView::SetModel(m) => m,
        _ => current,
    }
}

/// The model in use after a command.
pub fn model_after(current: String, command: &UiCommand) -> (r: String)
    ensures
        r@ == spec_model_after(current@, command@),
{
    match command {
        UiCommand::SetModel(m) => m.clone(),
        _ => current,
    }
}

/// A line (with the character that ends it) whose first character is not
/// `/` is a request for the agents: the line itself, whatever `/` it holds
/// further on; a line starting with `/` is never a request.
pub proof fn lemma_plain_line_is_prompt(line: Seq<char>, end: char)
    requires
        line.len() > 0,
    ensures
        line[0] != '/' ==> spec_read_command(line.push(end)) == UiCommandView::Prompt(line),
        line[0] == '/' ==> !(spec_read_command(line.push(end)) is Prompt),
{
    assert(line.push(end).drop_last() =~= line);
}

/// A line holding nothing but the character that ends it asks for nothing.
pub proof fn lemma_empty_line_is_nothing(end: char)
    ensures
        spec_read_command(seq![end]) == UiCommandView::Nothing,
{
    assert(seq![end].drop_last().len() == 0);
}

} // verus!
