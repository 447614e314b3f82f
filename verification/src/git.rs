//! The command lines by which the version-control tool is driven.

use crate::cmd::{CommandView, CommandWrapper};
use crate::text::texts;
use vstd::prelude::*;

verus! {

/// What to ask of the repository's configuration.
#[derive(Debug, PartialEq)]
pub enum ConfigCmd {
    /// The value of the given key.
    Get(String),
}

/// The name of the version-control tool.
pub const GIT: &'static str = "git";

/// The command that clones `repository` into a directory of its own under
/// `directory`.
pub open spec fn clone_command(repository: Seq<char>, directory: Seq<char>) -> CommandView {
    CommandView {
        program: GIT@,
        args: seq!["clone"@, repository],
        dir: directory,
        ignore_output: false,
        ignore_error: false,
        message: "Failed to clone repository."@,
    }
}

/// The command that reads the repository's configuration in `directory`.
pub open spec fn config_command(subcommand: ConfigCmd, directory: Seq<char>) -> CommandView {
    match subcommand {
        ConfigCmd::Get(key) => CommandView {
            program: GIT@,
            args: seq!["config"@, "--get"@, key@],
            dir: directory,
            ignore_output: true,
            ignore_error: true,
            message: "Could get get git config"@,
        },
    }
}

/// The command that clones `repository` into a directory of its own under
/// `directory`.
pub fn clone(repository: &String, directory: &str) -> (r: CommandWrapper)
    ensures
        r@ == clone_command(repository@, directory@),
{
    let mut command = crate::cmd::new(GIT, directory);
    command.message = "Failed to clone repository.".to_owned();
    command.args = vec!["clone".to_owned(), repository.clone()];
    assert(texts(command.args@) =~= seq!["clone"@, repository@]);
    command
}

/// The command that reads the repository's configuration in `directory`; its
/// output is read, and what it prints on failure is not shown.
pub fn config(subcommand: ConfigCmd, directory: &str) -> (r: CommandWrapper)
    ensures
        r@ == config_command(subcommand, directory@),
{
    let mut command = crate::cmd::new(GIT, directory);
    command.ignore_output = true;
    command.ignore_error = true;
    command.message = "Could get get git config".to_owned();
    match subcommand {
        ConfigCmd::Get(key) => {
            command.args = vec!["config".to_owned(), "--get".to_owned(), key];
            assert(texts(command.args@) =~= seq!["config"@, "--get"@, key@]);
        },
    }
    command
}

} // verus!
