use vstd::prelude::*;

use crate::text::{find_token_end, has_prefix, same_text, starts_with, token_end};

verus! {

/// The command name that `text` carries under `prefix`: what follows the
/// prefix up to the first space. `None` when `text` does not start with
/// `prefix`.
pub open spec fn command_name(text: Seq<char>, prefix: Seq<char>) -> Option<Seq<char>> {
    if has_prefix(text, prefix) {
        Some(text.subrange(prefix.len() as int, token_end(text, prefix.len() as int)))
    } else {
        None
    }
}

/// A command that a message can carry.
pub enum Command {
    /// Send a random image.
    Pittie,
    /// Reserved for adding images; does nothing yet.
    AddPittie,
    /// Any other name, the empty one included.
    Unknown(String),
}

/// `c` is the command that the name `name` selects.
pub open spec fn names_command(c: Command, name: Seq<char>) -> bool {
    if name == "pittie"@ {
        c is Pittie
    } else if name == "addpittie"@ {
        c is AddPittie
    } else {
        c matches Command::Unknown(t) && t@ == name
    }
}

/// The command that a message text carries, or `None` when the text does not
/// start with the prefix. Words after the command name are ignored.
pub fn parse_command(text: &str, prefix: &str) -> (r: Option<Command>)
    ensures
        match command_name(text@, prefix@) {
            None => r is None,
            Some(name) => r matches Some(c) && names_command(c, name),
        },
{
    if !starts_with(text, prefix) {
        return None;
    }
    let start = prefix.unicode_len();
    let end = find_token_end(text, start);
    let name = text.substring_char(start, end);
    if same_text(name, "pittie") {
        Some(Command::Pittie)
    } else if same_text(name, "addpittie") {
        Some(Command::AddPittie)
    } else {
        Some(Command::Unknown(String::from_str(name)))
    }
}

} // verus!
