//! The commands that a user can give, and what each of them does to the tracked set.

use std::path::PathBuf;
use vstd::prelude::*;

use crate::error::Error;
use crate::userdata::UserData;

pub mod commits;

use commits::{added, checked, listed, taken_out, Step};

verus! {

/// A path in the file system. Nothing inside it is visible to the verifier.
#[verifier::external_type_specification]
#[verifier::external_body]
pub struct ExPathBuf(PathBuf);

/// What a user asks for in one run.
#[derive(Debug)]
pub struct App {
    pub global_opts: GlobalOpts,
    pub command: Option<Commands>,
}

/// The groups of commands.
#[derive(Debug, PartialEq, Eq)]
pub enum Commands {
    Commits { command: CommitsCommands },
}

/// The commands on the tracked repositories.
#[derive(Debug, PartialEq, Eq)]
pub enum CommitsCommands {
    /// Start to track a repository.
    Add { input: String },
    /// Stop tracking a repository.
    Remove { input: String },
    /// Show what is tracked.
    List,
    /// Look for new commits in everything that is tracked.
    Check,
}

/// The options that hold for every command.
#[derive(Debug)]
pub struct GlobalOpts {
    /// The file that holds the tracked set between runs.
    pub data_file: PathBuf,
    /// Whether a check leaves the recorded looks as they are.
    pub skip_update: bool,
    pub color: Color,
}

/// When to colour what is shown.
#[derive(Debug, Clone, Copy, PartialEq, Eq, Structural)]
pub enum Color {
    /// Where the output can show colours.
    Auto,
    Always,
    Never,
}

/// `owo_colors::set_override`: from now on the crate takes colours as supported, or as
/// unsupported, whatever the output is. Nothing comes back.
#[verifier::external_body]
fn set_color_override(enabled: bool) {
    owo_colors::set_override(enabled)
}

impl Color {
    /// What this choice forces on the colouring: on, off, or nothing.
    pub fn forced(self) -> (choice: Option<bool>)
        ensures
            choice == match self {
                Color::Auto => None::<bool>,
                Color::Always => Some(true),
                Color::Never => Some(false),
            },
    {
        match self {
            Color::Auto => None,
            Color::Always => Some(true),
            Color::Never => Some(false),
        }
    }

    /// Puts this choice into effect for all that is shown afterwards.
    pub fn init(self) {
        match self.forced() {
            Some(enabled) => set_color_override(enabled),
            None => {},
        }
    }
}

impl App {
    /// Carries out the command on `userdata` as far as that takes nothing from outside, and
    /// says what is left to do: lines to show, or requests to send. Without a command the
    /// tracked repositories are checked.
    pub fn handle_command(&self, userdata: &mut UserData) -> (result: Result<Step, Error>)
        ensures
            match self.command {
                Some(Commands::Commits { command: CommitsCommands::Add { input } }) => added(
                    old(userdata)@,
                    input@,
                    final(userdata)@,
                    result,
                ),
                Some(
                    Commands::Commits { command: CommitsCommands::Remove { input } },
                ) => taken_out(old(userdata)@, input@, final(userdata)@, result),
                Some(Commands::Commits { command: CommitsCommands::List }) => {
                    &&& final(userdata)@ == old(userdata)@
                    &&& result matches Ok(step) && listed(old(userdata)@, step)
                },
                Some(Commands::Commits { command: CommitsCommands::Check }) | None => {
                    &&& final(userdata)@ == old(userdata)@
                    &&& result matches Ok(step) && checked(old(userdata)@, step)
                },
            },
            old(userdata).wf() ==> final(userdata).wf(),
    {
        match &self.command {
            Some(Commands::Commits { command }) => match command {
                CommitsCommands::Add { input } => commits::add(userdata, input.as_str()),
                CommitsCommands::Remove { input } => commits::remove(userdata, input.as_str()),
                CommitsCommands::List => Ok(commits::list(userdata)),
                CommitsCommands::Check => Ok(commits::check(userdata)),
            },
            None => Ok(commits::check(userdata)),
        }
    }
}

} // verus!
