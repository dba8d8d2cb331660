//! What can be asked for.

use crate::path::FsPath;
use crate::text::chars;
use vstd::prelude::*;

verus! {

/// The command line.
pub struct Cli {
    pub command: Option<Command>,
}

#[allow(inconsistent_fields)]
pub enum Command {
    Daemon,
    Ui,
    Launch { game_id: String },
    List,
    Status,
    Shutdown,
    Reload,
    Scan { directory: FsPath },
    Add { directory: FsPath },
    Sync { action: SyncCommand },
    Scale { action: ScaleCommand },
}

/// What can be done to a running game. The session may be left out while only one game runs.
pub enum ScaleCommand {
    Status,
    Fsr { session_id: Option<String> },
    Nis { session_id: Option<String> },
    Integer { session_id: Option<String> },
    Linear { session_id: Option<String> },
    Sharpness { delta: i32, session_id: Option<String> },
    Toggle { session_id: Option<String> },
    Up { session_id: Option<String> },
    Down { session_id: Option<String> },
    Reset { session_id: Option<String> },
    Fullscreen { session_id: Option<String> },
}

/// What can be asked of the cloud.
#[allow(inconsistent_fields)]
pub enum SyncCommand {
    Status,
    /// Uploads the saves of a game, or of every game.
    Now { game_id: Option<String> },
    Versions { game_id: String },
    Cloud,
    /// Puts saves back: the newest ones, or a version.
    Restore { game_id: String, version: Option<String> },
    Test,
    Unlock,
    MasterPassword,
    Lock,
}

impl Cli {
    /// What is done: without a command the window opens, as it does for a double click.
    pub fn chosen(self) -> (command: Command)
        ensures
            command == match self.command {
                Some(command) => command,
                None => Command::Ui,
            },
    {
        match self.command {
            Some(command) => command,
            None => Command::Ui,
        }
    }
}

/// Adds a line to those that are printed.
pub fn push_line(lines: &mut Vec<String>, line: String)
    ensures
        chars::texts(final(lines)@) == chars::texts(old(lines)@).push(line@),
{
    let ghost before = lines@;
    lines.push(line);
    assert(chars::texts(lines@) =~= chars::texts(before).push(line@));
}

} // verus!
