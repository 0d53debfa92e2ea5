use vstd::prelude::*;

verus! {

/// What a line typed by a logged-in client asks of the server.
#[derive(Clone, Copy, PartialEq, Eq, Structural, Debug)]
pub enum CommandType {
    Chat,
    Party,
    Exit,
}

/// The token that shuts the whole service down.
pub const EXIT_TOKEN: &'static str = "!exit";

/// The token that announces a party to everyone connected.
pub const PARTY_TOKEN: &'static str = "!party";

/// The command that a whole (trimmed) input line stands for.
pub open spec fn command_of(cmd: Seq<char>) -> CommandType {
    if cmd == EXIT_TOKEN@ {
        CommandType::Exit
    } else if cmd == PARTY_TOKEN@ {
        CommandType::Party
    } else {
        CommandType::Chat
    }
}

/// Classifies an input line: only an exact match of a command token counts.
pub fn command(cmd: &str) -> (r: CommandType)
    ensures
        r == command_of(cmd@),
{
    let line = String::from_str(cmd);
    let exit = String::from_str(EXIT_TOKEN);
    let party = String::from_str(PARTY_TOKEN);
    if line == exit {
        CommandType::Exit
    } else if line == party {
        CommandType::Party
    } else {
        CommandType::Chat
    }
}

} // verus!
