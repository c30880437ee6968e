//! The commands that a key stands for while a fetch runs.

use vstd::prelude::*;

verus! {

/// What the user asks for with a key.
#[derive(Clone, Copy, Debug, PartialEq, Eq, Structural)]
pub enum UserCommand {
    Pause,
    Resume,
    Status,
    Quit,
    Other(char),
}

/// The command that a key stands for: q, p, r and s, small or capital, have
/// a meaning of their own.
pub fn command_for_key(key: char) -> (r: UserCommand)
    ensures
        r == if key == 'q' || key == 'Q' {
            UserCommand::Quit
        } else if key == 'p' || key == 'P' {
            UserCommand::Pause
        } else if key == 'r' || key == 'R' {
            UserCommand::Resume
        } else if key == 's' || key == 'S' {
            UserCommand::Status
        } else {
            UserCommand::Other(key)
        },
{
    if key == 'q' || key == 'Q' {
        UserCommand::Quit
    } else if key == 'p' || key == 'P' {
        UserCommand::Pause
    } else if key == 'r' || key == 'R' {
        UserCommand::Resume
    } else if key == 's' || key == 'S' {
        UserCommand::Status
    } else {
        UserCommand::Other(key)
    }
}

impl UserCommand {
    /// Whether the command sets the cancellation flag.
    pub fn cancels(&self) -> (r: bool)
        ensures
            r == (*self == UserCommand::Quit),
    {
        match self {
            UserCommand::Quit => true,
            _ => false,
        }
    }
}

} // verus!
