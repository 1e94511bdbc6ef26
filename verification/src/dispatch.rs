//! Routing a single-agent manager answer: the first line names the agent,
//! the following lines are its input.
use vstd::prelude::*;
use crate::text::{chars_of, concat_from, concat_seq, replace_chars, replace_seq, split_seq, split_str};

verus! {

/// What a manager answer routed to one agent asks for.
#[derive(Debug, PartialEq, Eq)]
pub enum Dispatch {
    /// A file action: the path and the action (first two words of the second
    /// line) and the content (the remaining lines, joined).
    FileAction(String, String, String),
    /// A file action whose second line has fewer than two words.
    Tired,
    /// A database request whose input is the lines after the first, joined.
    Sqlite3(String),
    /// A request for the named agent whose input is the lines after the
    /// first, joined.
    Ask(String, String),
}

/// The mathematical content of a [`Dispatch`].
pub enum DispatchView {
    FileAction(Seq<char>, Seq<char>, Seq<char>),
    Tired,
    Sqlite3(Seq<char>),
    Ask(Seq<char>, Seq<char>),
}

impl View for Dispatch {
    type V = DispatchView;

    open spec fn view(&self) -> DispatchView {
        match self {
            Dispatch::FileAction(p, a, c) => DispatchView::FileAction(p@, a@, c@),
            Dispatch::Tired => DispatchView::Tired,
            Dispatch::Sqlite3(i) => DispatchView::Sqlite3(i@),
            Dispatch::Ask(a, i) => DispatchView::Ask(a@, i@),
        }
    }
}

/// A file action needs a second line to read its path and action from.
pub open spec fn routable(answer: Seq<char>) -> bool {
    let lines = split_seq(answer, "\n"@);
    lines[0] == "File_System"@ ==> lines.len() >= 2
}

/// The routing of a manager answer.
pub open spec fn spec_plan_dispatch(answer: Seq<char>) -> DispatchView {
    let lines = split_seq(answer, "\n"@);
    let agent = lines[0];
    if agent == "File_System"@ {
        let words = split_seq(lines[1], " "@);
        if words.len() >= 2 {
            DispatchView::FileAction(words[0], words[1], concat_seq(lines.skip(2)))
        } else {
            DispatchView::Tired
        }
    } else if agent == "Sqlite3"@ {
        DispatchView::Sqlite3(concat_seq(lines.skip(1)))
    } else {
        DispatchView::Ask(agent, concat_seq(lines.skip(1)))
    }
}

/// Routes a manager answer to its agent.
pub fn plan_dispatch(answer: &str) -> (r: Dispatch)
    requires
        routable(answer@),
    ensures
        r@ == spec_plan_dispatch(answer@),
{
    proof {
        reveal_strlit("\n");
        reveal_strlit(" ");
        crate::text::lemma_split_from_nonempty(answer@, "\n"@, Seq::empty());
    }
    let mut lines = split_str(answer, "\n");
    let ghost lv = lines.deep_view();
    assert(lv[0] == lines@[0]@);
    let agent = lines[0].clone();
    if agent == String::from_str("File_System") {
        assert(lv[1] == lines@[1]@);
        let mut words = split_str(lines[1].as_str(), " ");
        let ghost wv = words.deep_view();
        if words.len() >= 2 {
            assert(wv[0] == words@[0]@);
            assert(wv[1] == words@[1]@);
            let content = concat_from(&lines, 2);
            let action = words.remove(1);
            let path = words.remove(0);
            Dispatch::FileAction(path, action, content)
        } else {
            Dispatch::Tired
        }
    } else if agent == String::from_str("Sqlite3") {
        Dispatch::Sqlite3(concat_from(&lines, 1))
    } else {
        let input = concat_from(&lines, 1);
        Dispatch::Ask(agent, input)
    }
}

/// A file agent's prompt with its `{file_content}` placeholders replaced by
/// the file's content.
pub fn insert_file_content(prompt: &str, file_content: &str) -> (r: String)
    ensures
        r@ == replace_seq(prompt@, "{file_content}"@, file_content@),
{
    proof {
        reveal_strlit("{file_content}");
    }
    let p = chars_of(prompt);
    let marker = chars_of("{file_content}");
    replace_chars(p.as_slice(), marker.as_slice(), file_content)
}

} // verus!
