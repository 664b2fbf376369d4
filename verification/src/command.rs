//! What the user of the client types: commands, and the messages that they submit.

use vstd::prelude::*;
use vstd::string::StrSliceExecFns;

use crate::text::{
    is_blank, is_space, only_white_space_is_trimmed, trim, trimmed,
    trimmed_gives_what_stands_between, trimmed_has_no_space_at_its_ends,
    trimmed_ignores_surrounding_space, trimmed_keeps_tight_text,
};

verus! {

/// A line that the user typed.
#[derive(Debug, PartialEq, Eq)]
pub enum Command {
    /// Nothing but white space.
    Empty,
    /// `send` with the text to send.
    Send { text: String },
    /// `leave`.
    Leave,
    /// Anything else.
    Unknown,
}

/// What a [`Command`] says.
pub enum CommandView {
    Empty,
    Send { text: Seq<char> },
    Leave,
    Unknown,
}

impl View for Command {
    type V = CommandView;

    open spec fn view(&self) -> CommandView {
        match self {
            Command::Empty => CommandView::Empty,
            Command::Send { text } => CommandView::Send { text: text@ },
            Command::Leave => CommandView::Leave,
            Command::Unknown => CommandView::Unknown,
        }
    }
}

/// What stands before the text in a `send` command.
pub open spec fn send_prefix() -> Seq<char> {
    "send "@
}

/// The command that stands in `line`; white space around it is ignored.
pub open spec fn command(line: Seq<char>) -> CommandView {
    let typed = trimmed(line);
    if typed.len() == 0 {
        CommandView::Empty
    } else if typed == "leave"@ {
        CommandView::Leave
    } else if send_prefix().is_prefix_of(typed) {
        CommandView::Send { text: typed.skip(send_prefix().len() as int) }
    } else {
        CommandView::Unknown
    }
}

/// What follows the `send` and its space in `typed`, if it starts with them.
fn strip_send(typed: &str) -> (text: Option<&str>)
    ensures
        match text {
            Some(text) => send_prefix().is_prefix_of(typed@) && text@ == typed@.skip(
                send_prefix().len() as int,
            ),
            None => !send_prefix().is_prefix_of(typed@),
        },
{
    proof {
        reveal_strlit("send ");
    }
    let n: usize = typed.unicode_len();
    if n >= 5 && typed.substring_char(0, 5).to_owned() == "send ".to_owned() {
        assert(typed@.take(5) =~= send_prefix());
        Some(typed.substring_char(5, n))
    } else {
        proof {
            if send_prefix().is_prefix_of(typed@) {
                assert(typed@.subrange(0, 5) =~= send_prefix());
            }
        }
        None
    }
}

/// Reads the command that stands in `line`.
pub fn parse_command(line: &str) -> (parsed: Command)
    ensures
        parsed@ == command(line@),
{
    let typed = trim(line);
    if typed.is_empty() {
        Command::Empty
    } else if typed.to_owned() == "leave".to_owned() {
        Command::Leave
    } else {
        match strip_send(typed) {
            Some(text) => Command::Send { text: text.to_owned() },
            None => Command::Unknown,
        }
    }
}

/// White space around a command makes no difference.
pub proof fn surrounding_space_is_ignored(before: Seq<char>, line: Seq<char>, after: Seq<char>)
    requires
        is_blank(before),
        is_blank(after),
    ensures
        command(before + line + after) == command(line),
{
    trimmed_ignores_surrounding_space(before, line, after);
}

/// A `send` command carries its text as it is, unless the text ends in white space, which belongs
/// to the line.
pub proof fn send_carries_text(text: Seq<char>)
    requires
        text.len() > 0,
        !is_space(text.last()),
    ensures
        command(send_prefix() + text) == (CommandView::Send { text }),
{
    reveal_strlit("send ");
    reveal_strlit("leave");
    let line = send_prefix() + text;
    assert(line.last() == text.last());
    assert(line.first() == 's');
    trimmed_keeps_tight_text(line);
    assert("leave"@[0] == 'l');
    assert(line.skip(5) =~= text);
}

/// No `send` command carries an empty text, or one that ends in white space.
pub proof fn sent_text_is_not_blank(line: Seq<char>)
    requires
        command(line) is Send,
    ensures
        command(line)->text.len() > 0,
        !is_space(command(line)->text.last()),
{
    reveal_strlit("send ");
    trimmed_has_no_space_at_its_ends(line);
    let typed = trimmed(line);
    assert(typed.take(5) =~= send_prefix());
    assert(is_space(send_prefix()[4]));
    assert(typed[4] == send_prefix()[4]);
}

/// A line is the empty command exactly if it is white space throughout.
pub proof fn blank_line_is_empty(line: Seq<char>)
    ensures
        command(line) == CommandView::Empty <==> is_blank(line),
{
    if is_blank(line) {
        let nothing = Seq::<char>::empty();
        assert(line =~= line + nothing + nothing);
        trimmed_gives_what_stands_between(line, nothing, nothing);
    }
    if command(line) == CommandView::Empty {
        only_white_space_is_trimmed(line);
        let (before, after) = choose|before: Seq<char>, after: Seq<char>|
            is_blank(before) && is_blank(after) && line == #[trigger] (before + trimmed(line)
                + after);
        assert(trimmed(line) =~= seq![]);
        assert forall|i: int| 0 <= i < line.len() implies is_space(#[trigger] line[i]) by {
            if i < before.len() {
                assert(line[i] == before[i]);
            } else {
                assert(line[i] == after[i - before.len()]);
            }
        }
    }
}

/// A line is the command to leave exactly if it is `leave` with nothing but white space around.
pub proof fn leave_stands_alone(line: Seq<char>)
    ensures
        command(line) == CommandView::Leave <==> exists|before: Seq<char>, after: Seq<char>|
            is_blank(before) && is_blank(after) && line == #[trigger] (before + "leave"@ + after),
{
    reveal_strlit("leave");
    if command(line) == CommandView::Leave {
        only_white_space_is_trimmed(line);
        let (before, after) = choose|before: Seq<char>, after: Seq<char>|
            is_blank(before) && is_blank(after) && line == #[trigger] (before + trimmed(line)
                + after);
        assert(line == before + "leave"@ + after);
    }
    if exists|before: Seq<char>, after: Seq<char>|
        is_blank(before) && is_blank(after) && line == #[trigger] (before + "leave"@ + after) {
        let (before, after) = choose|before: Seq<char>, after: Seq<char>|
            is_blank(before) && is_blank(after) && line == #[trigger] (before + "leave"@ + after);
        trimmed_gives_what_stands_between(before, "leave"@, after);
    }
}

/// A line is the command to send a text exactly if it is `send`, a space and the text, with
/// nothing but white space around; the text is not empty and does not end in white space.
pub proof fn send_stands_before_its_text(line: Seq<char>, text: Seq<char>)
    ensures
        command(line) == (CommandView::Send { text }) <==> {
            &&& text.len() > 0
            &&& !is_space(text.last())
            &&& exists|before: Seq<char>, after: Seq<char>|
                is_blank(before) && is_blank(after) && line == #[trigger] (before + ("send "@ + text)
                    + after)
        },
{
    reveal_strlit("send ");
    let whole = "send "@ + text;
    if command(line) == (CommandView::Send { text }) {
        sent_text_is_not_blank(line);
        only_white_space_is_trimmed(line);
        let (before, after) = choose|before: Seq<char>, after: Seq<char>|
            is_blank(before) && is_blank(after) && line == #[trigger] (before + trimmed(line)
                + after);
        assert(trimmed(line) =~= whole);
        assert(line == before + whole + after);
    }
    if text.len() > 0 && !is_space(text.last()) && exists|before: Seq<char>, after: Seq<char>|
        is_blank(before) && is_blank(after) && line == #[trigger] (before + ("send "@ + text)
            + after) {
        let (before, after) = choose|before: Seq<char>, after: Seq<char>|
            is_blank(before) && is_blank(after) && line == #[trigger] (before + ("send "@ + text)
                + after);
        surrounding_space_is_ignored(before, whole, after);
        send_carries_text(text);
    }
}

/// A command says what its field says.
pub proof fn command_says_its_field(text: String)
    ensures
        Command::Empty@ == CommandView::Empty,
        (Command::Send { text })@ == (CommandView::Send { text: text@ }),
        Command::Leave@ == CommandView::Leave,
        Command::Unknown@ == CommandView::Unknown,
{
}

} // verus!
