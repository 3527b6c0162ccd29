//! Chat commands, read from the text of a message.
use vstd::prelude::*;
use crate::text::{chars_eq, chars_of, split_words, string_from_chars, words};

verus! {

/// A command of the chat interface.
pub enum Command {
    /// `/start` or `/help`: show the menu.
    Help,
    /// `/list`: name every configured device.
    List,
    /// `/status_all`: probe every device.
    StatusAll,
    /// `/status <name>`: probe one device.
    Status { name: String },
    /// `/wake <name>`: wake one device and verify that it came up.
    Wake { name: String },
    /// `/status` or `/wake` without a device name.
    MissingDeviceName,
    /// Text that is none of the commands above; it gets no reply.
    Ignored,
}

pub enum CommandView {
    Help,
    List,
    StatusAll,
    Status { name: Seq<char> },
    Wake { name: Seq<char> },
    MissingDeviceName,
    Ignored,
}

impl View for Command {
    type V = CommandView;

    open spec fn view(&self) -> CommandView {
        match self {
            Command::Help => CommandView::Help,
            Command::List => CommandView::List,
            Command::StatusAll => CommandView::StatusAll,
            Command::Status { name } => CommandView::Status { name: name@ },
            Command::Wake { name } => CommandView::Wake { name: name@ },
            Command::MissingDeviceName => CommandView::MissingDeviceName,
            Command::Ignored => CommandView::Ignored,
        }
    }
}

/// The command that the words `ws` of a message give: the first word names
/// it, the second (where it needs one) is the device name; further words are
/// ignored.
pub open spec fn command_spec(ws: Seq<Seq<char>>) -> CommandView {
    if ws.len() == 0 {
        CommandView::Ignored
    } else if ws[0] == "/start"@ || ws[0] == "/help"@ {
        CommandView::Help
    } else if ws[0] == "/list"@ {
        CommandView::List
    } else if ws[0] == "/status_all"@ {
        CommandView::StatusAll
    } else if ws[0] == "/status"@ {
        if ws.len() >= 2 {
            CommandView::Status { name: ws[1] }
        } else {
            CommandView::MissingDeviceName
        }
    } else if ws[0] == "/wake"@ {
        if ws.len() >= 2 {
            CommandView::Wake { name: ws[1] }
        } else {
            CommandView::MissingDeviceName
        }
    } else {
        CommandView::Ignored
    }
}

/// The command that the message text `text` gives.
pub fn parse_command(text: &str) -> (r: Command)
    ensures
        r@ == command_spec(words(text@)),
{
    let ws = split_words(&chars_of(text));
    if ws.len() == 0 {
        return Command::Ignored;
    }
    let first = &ws[0];
    if chars_eq(first, &chars_of("/start")) || chars_eq(first, &chars_of("/help")) {
        Command::Help
    } else if chars_eq(first, &chars_of("/list")) {
        Command::List
    } else if chars_eq(first, &chars_of("/status_all")) {
        Command::StatusAll
    } else if chars_eq(first, &chars_of("/status")) {
        if ws.len() >= 2 {
            Command::Status { name: string_from_chars(&ws[1]) }
        } else {
            Command::MissingDeviceName
        }
    } else if chars_eq(first, &chars_of("/wake")) {
        if ws.len() >= 2 {
            Command::Wake { name: string_from_chars(&ws[1]) }
        } else {
            Command::MissingDeviceName
        }
    } else {
        Command::Ignored
    }
}

} // verus!
