//! Commands to be run: what to run, where, and how its output is treated.
//! Nothing here runs a command; a command is a value that the caller runs.

use crate::text::texts;
use vstd::prelude::*;

verus! {

/// A command with the directory it runs in and the treatment of its output.
#[derive(Debug, PartialEq)]
pub struct CommandWrapper {
    pub program: String,
    pub args: Vec<String>,
    /// The directory in which the command runs.
    pub dir: String,
    /// The command's output is captured, not shown.
    pub ignore_output: bool,
    /// The command's error output is captured, not shown.
    pub ignore_error: bool,
    /// What to report when the command cannot be run.
    pub message: String,
}

/// What a command holds, as mathematical values.
pub struct CommandView {
    pub program: Seq<char>,
    pub args: Seq<Seq<char>>,
    pub dir: Seq<char>,
    pub ignore_output: bool,
    pub ignore_error: bool,
    pub message: Seq<char>,
}

impl View for CommandWrapper {
    type V = CommandView;

    open spec fn view(&self) -> CommandView {
        CommandView {
            program: self.program@,
            args: texts(self.args@),
            dir: self.dir@,
            ignore_output: self.ignore_output,
            ignore_error: self.ignore_error,
            message: self.message@,
        }
    }
}

/// The views of a list of commands, in order.
pub open spec fn command_views(commands: Seq<CommandWrapper>) -> Seq<CommandView> {
    Seq::new(commands.len(), |i: int| commands[i]@)
}

/// The words into which `shellwords::split` splits a command line, and none
/// where it finds the quotes of the line mismatched.
pub uninterp spec fn shell_words(input: Seq<char>) -> Option<Seq<Seq<char>>>;

/// `shellwords::MismatchedQuotes`, the error with which `shellwords::split`
/// turns a line down. It is handed on as it is; nothing is known of it.
#[verifier::external_type_specification]
#[verifier::external_body]
pub struct ExMismatchedQuotes(shellwords::MismatchedQuotes);

/// Calls `shellwords::split`. Nothing is claimed of the words but that they
/// are those which that call finds in the line.
#[verifier::external_body]
fn split_words(input: &str) -> (r: Result<Vec<String>, shellwords::MismatchedQuotes>)
    ensures
        match r {
            Ok(words) => shell_words(input@) == Some(texts(words@)),
            Err(_) => shell_words(input@) is None,
        },
{
    shellwords::split(input)
}

/// `text` with every occurrence of `from` replaced by `to`, the occurrences
/// found from the left and not overlapping.
pub open spec fn substituted(text: Seq<char>, from: Seq<char>, to: Seq<char>) -> Seq<char>
    recommends
        from.len() > 0,
    decreases text.len(),
{
    if from.len() == 0 || text.len() < from.len() {
        text
    } else if text.take(from.len() as int) == from {
        to + substituted(text.skip(from.len() as int), from, to)
    } else {
        seq![text[0]] + substituted(text.skip(1), from, to)
    }
}

/// Calls `str::replace` with a pattern that is not empty: the result is the
/// text with each match of the pattern, found from the left and not
/// overlapping, replaced.
#[verifier::external_body]
fn replace_all(text: &str, from: &str, to: &str) -> (r: String)
    requires
        from@.len() > 0,
    ensures
        r@ == substituted(text@, from@, to@),
{
    text.replace(from, to)
}

/// The variable that stands for the home directory in the arguments of a
/// hook command.
pub const HOME_VARIABLE: &'static str = "$HOME";

/// The command that a list of words stands for: the first word is the
/// program, the others are its arguments with the home directory put in
/// place of its variable. No words, no command.
pub open spec fn command_of_words(words: Seq<Seq<char>>, home: Seq<char>) -> Option<CommandView> {
    if words.len() == 0 {
        None
    } else {
        Some(
            CommandView {
                program: words[0],
                args: Seq::new((words.len() - 1) as nat, |i: int| substituted(words[i + 1], HOME_VARIABLE@, home)),
                dir: Seq::empty(),
                ignore_output: false,
                ignore_error: false,
                message: Seq::empty(),
            },
        )
    }
}

/// The command that a command line stands for, and none where the line
/// cannot be split or holds no word.
pub open spec fn parsed(line: Seq<char>, home: Seq<char>) -> Option<CommandView> {
    match shell_words(line) {
        Some(words) => command_of_words(words, home),
        None => None,
    }
}

/// The commands that a list of command lines stands for, in order, each
/// to run in `dir` and to fail with `message`. Lines that stand for no
/// command are left out.
pub open spec fn planned(lines: Seq<Seq<char>>, dir: Seq<char>, message: Seq<char>, home: Seq<char>) -> Seq<
    CommandView,
>
    decreases lines.len(),
{
    if lines.len() == 0 {
        Seq::empty()
    } else {
        let before = planned(lines.drop_last(), dir, message, home);
        match parsed(lines.last(), home) {
            Some(command) => before.push(CommandView { dir, message, ..command }),
            None => before,
        }
    }
}

/// A command that runs `program` in `dir`, without arguments, its output
/// shown.
pub fn new(program: &str, dir: &str) -> (r: CommandWrapper)
    ensures
        r@ == (CommandView {
            program: program@,
            args: Seq::empty(),
            dir: dir@,
            ignore_output: false,
            ignore_error: false,
            message: Seq::empty(),
        }),
{
    let r = CommandWrapper {
        program: program.to_owned(),
        args: Vec::new(),
        dir: dir.to_owned(),
        ignore_output: false,
        ignore_error: false,
        message: String::new(),
    };
    assert(texts(r.args@) =~= Seq::<Seq<char>>::empty());
    r
}

/// Whether what became of a command ends the operation it belongs to: the
/// command could not be started, or it ended in failure while its error
/// output was to be shown. A command whose error output is captured is one
/// that may fail.
pub open spec fn is_fatal(command: CommandView, started: bool, succeeded: bool) -> bool {
    !started || (!succeeded && !command.ignore_error)
}

/// Whether the outcome of `command` ends the operation: `started` says
/// whether the command could be run at all, `succeeded` whether it ended
/// well.
pub fn ends_operation(command: &CommandWrapper, started: bool, succeeded: bool) -> (r: bool)
    ensures
        r == is_fatal(command@, started, succeeded),
{
    !started || (!succeeded && !command.ignore_error)
}

/// The command that a list of words stands for.
pub fn command_from_words(words: &Vec<String>, home: &str) -> (r: Option<CommandWrapper>)
    ensures
        match r {
            Some(command) => command_of_words(texts(words@), home@) == Some(command@),
            None => command_of_words(texts(words@), home@) is None,
        },
{
    if words.len() == 0 {
        return None;
    }
    proof {
        reveal_strlit("$HOME");
    }
    let mut args: Vec<String> = Vec::new();
    let mut i: usize = 1;
    while i < words.len()
        invariant
            1 <= i <= words.len(),
            args.len() == i - 1,
            HOME_VARIABLE@.len() > 0,
            forall|j: int|
                0 <= j < i - 1 ==> (#[trigger] args@[j])@ == substituted(words@[j + 1]@, HOME_VARIABLE@, home@),
        decreases words.len() - i,
    {
        args.push(replace_all(words[i].as_str(), HOME_VARIABLE, home));
        i += 1;
    }
    let command = CommandWrapper {
        program: words[0].clone(),
        args,
        dir: String::new(),
        ignore_output: false,
        ignore_error: false,
        message: String::new(),
    };
    assert(command@.args =~= command_of_words(texts(words@), home@)->0.args);
    Some(command)
}

/// Reads a command line as a command: split into words as a shell would
/// split it, the first word the program, the others its arguments with the
/// home directory put in place of its variable.
pub fn parse(cmd_string: &String, home: &str) -> (r: Option<CommandWrapper>)
    ensures
        match r {
            Some(command) => parsed(cmd_string@, home@) == Some(command@),
            None => parsed(cmd_string@, home@) is None,
        },
{
    match split_words(cmd_string.as_str()) {
        Ok(words) => command_from_words(&words, home),
        Err(_) => None,
    }
}

/// The commands that the lines of `cmds` stand for, in order, each to run
/// in `dir` and to fail with `message`. A line that stands for no command is
/// left out.
pub fn run_from_list(cmds: &Vec<String>, dir: &str, message: &str, home: &str) -> (r: Vec<CommandWrapper>)
    ensures
        command_views(r@) == planned(texts(cmds@), dir@, message@, home@),
{
    let ghost lines = texts(cmds@);
    let mut commands: Vec<CommandWrapper> = Vec::new();
    let mut i: usize = 0;
    while i < cmds.len()
        invariant
            i <= cmds.len(),
            lines == texts(cmds@),
            command_views(commands@) == planned(lines.take(i as int), dir@, message@, home@),
        decreases cmds.len() - i,
    {
        proof {
            assert(lines.take(i as int + 1).drop_last() =~= lines.take(i as int));
            assert(lines.take(i as int + 1).last() == cmds@[i as int]@);
        }
        let ghost before = command_views(commands@);
        match parse(&cmds[i], home) {
            Some(command) => {
                let placed = CommandWrapper {
                    program: command.program,
                    args: command.args,
                    dir: dir.to_owned(),
                    ignore_output: command.ignore_output,
                    ignore_error: command.ignore_error,
                    message: message.to_owned(),
                };
                commands.push(placed);
                assert(command_views(commands@) =~= before.push(placed@));
            },
            None => {},
        }
        i += 1;
    }
    assert(lines.take(i as int) =~= lines);
    commands
}

} // verus!
