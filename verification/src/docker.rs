//! The command lines by which the container tool is driven.

use crate::cmd::{CommandView, CommandWrapper};
use crate::text::texts;
use vstd::prelude::*;

verus! {

/// What to do about a network.
#[derive(Debug, PartialEq)]
pub enum NetworkCmd {
    Create(String),
}

/// What to do about a volume.
#[derive(Debug, PartialEq)]
pub enum VolumeCmd {
    Create(String),
}

/// What to do with a compose stack. The lists of files are the compose
/// files, in the order in which they are handed on.
#[derive(Debug, PartialEq)]
pub enum ComposeCmd {
    /// Bring up the given services, all where none is given.
    Up(Vec<String>, Vec<String>),
    /// List the declared services.
    Config(Vec<String>),
    /// List the running services with their states.
    List(Vec<String>),
    Down(Vec<String>),
    /// Run a command in a running service.
    Exec(String, Vec<String>, Vec<String>),
    /// Run a command in a new container of a service.
    Run(String, Vec<String>, Vec<String>),
}

/// A network command, as mathematical values.
pub enum NetworkCmdView {
    Create(Seq<char>),
}

/// A volume command, as mathematical values.
pub enum VolumeCmdView {
    Create(Seq<char>),
}

/// A compose command, as mathematical values.
pub enum ComposeCmdView {
    Up(Seq<Seq<char>>, Seq<Seq<char>>),
    Config(Seq<Seq<char>>),
    List(Seq<Seq<char>>),
    Down(Seq<Seq<char>>),
    Exec(Seq<char>, Seq<Seq<char>>, Seq<Seq<char>>),
    Run(Seq<char>, Seq<Seq<char>>, Seq<Seq<char>>),
}

impl View for NetworkCmd {
    type V = NetworkCmdView;

    open spec fn view(&self) -> NetworkCmdView {
        match self {
            NetworkCmd::Create(name) => NetworkCmdView::Create(name@),
        }
    }
}

impl View for VolumeCmd {
    type V = VolumeCmdView;

    open spec fn view(&self) -> VolumeCmdView {
        match self {
            VolumeCmd::Create(name) => VolumeCmdView::Create(name@),
        }
    }
}

impl View for ComposeCmd {
    type V = ComposeCmdView;

    open spec fn view(&self) -> ComposeCmdView {
        match self {
            ComposeCmd::Up(services, files) => ComposeCmdView::Up(texts(services@), texts(files@)),
            ComposeCmd::Config(files) => ComposeCmdView::Config(texts(files@)),
            ComposeCmd::List(files) => ComposeCmdView::List(texts(files@)),
            ComposeCmd::Down(files) => ComposeCmdView::Down(texts(files@)),
            ComposeCmd::Exec(service, files, command) => ComposeCmdView::Exec(
                service@,
                texts(files@),
                texts(command@),
            ),
            ComposeCmd::Run(service, files, command) => ComposeCmdView::Run(
                service@,
                texts(files@),
                texts(command@),
            ),
        }
    }
}

/// The name of the container tool.
pub const DOCKER: &'static str = "docker";

/// The arguments that name the compose files: each file after a `-f`.
pub open spec fn file_args(files: Seq<Seq<char>>) -> Seq<Seq<char>> {
    Seq::new(
        2 * files.len(),
        |i: int|
            if i % 2 == 0 {
                "-f"@
            } else {
                files[i / 2]
            },
    )
}

/// The command that creates a network.
pub open spec fn network_command(subcommand: NetworkCmdView, cwd: Seq<char>) -> CommandView {
    match subcommand {
        NetworkCmdView::Create(name) => CommandView {
            program: DOCKER@,
            args: seq!["network"@, "create"@, name],
            dir: cwd,
            ignore_output: false,
            ignore_error: true,
            message: "Could not create docker network"@,
        },
    }
}

/// The command that creates a volume.
pub open spec fn volume_command(subcommand: VolumeCmdView, cwd: Seq<char>) -> CommandView {
    match subcommand {
        VolumeCmdView::Create(name) => CommandView {
            program: DOCKER@,
            args: seq!["volume"@, "create"@, name],
            dir: cwd,
            ignore_output: true,
            ignore_error: false,
            message: "Could not create docker volume"@,
        },
    }
}

/// The arguments of a compose command: `compose`, the compose files, and
/// what is asked of the stack.
pub open spec fn compose_args(subcommand: ComposeCmdView) -> Seq<Seq<char>> {
    match subcommand {
        ComposeCmdView::Up(services, files) => seq!["compose"@] + file_args(files) + seq!["up"@, "-d"@]
            + services,
        ComposeCmdView::Config(files) => seq!["compose"@] + file_args(files) + seq!["config"@, "--services"@],
        ComposeCmdView::List(files) => seq!["compose"@] + file_args(files) + seq!["ps"@, "--format"@, "json"@],
        ComposeCmdView::Down(files) => seq!["compose"@] + file_args(files) + seq!["down"@],
        ComposeCmdView::Exec(service, files, command) => seq!["compose"@] + file_args(files) + seq![
            "exec"@,
            "-T"@,
            service,
        ] + command,
        ComposeCmdView::Run(service, files, command) => seq!["compose"@] + file_args(files) + seq![
            "run"@,
            service,
        ] + command,
    }
}

/// Whether the output of a compose command is read rather than shown.
pub open spec fn compose_is_query(subcommand: ComposeCmdView) -> bool {
    subcommand is Config || subcommand is List
}

/// The compose command for the stack in `dir`.
pub open spec fn compose_command(subcommand: ComposeCmdView, dir: Seq<char>) -> CommandView {
    CommandView {
        program: DOCKER@,
        args: compose_args(subcommand),
        dir,
        ignore_output: compose_is_query(subcommand),
        ignore_error: false,
        message: "Could not start project"@,
    }
}

/// The command that creates a network; that the network exists already is
/// not worth showing.
pub fn network(subcommand: NetworkCmd, cwd: &str) -> (r: CommandWrapper)
    ensures
        r@ == network_command(subcommand@, cwd@),
{
    let mut command = crate::cmd::new(DOCKER, cwd);
    command.ignore_error = true;
    command.message = "Could not create docker network".to_owned();
    match subcommand {
        NetworkCmd::Create(name) => {
            command.args = vec!["network".to_owned(), "create".to_owned(), name];
            assert(texts(command.args@) =~= seq!["network"@, "create"@, name@]);
        },
    }
    command
}

/// The command that creates a volume.
pub fn volume(subcommand: VolumeCmd, cwd: &str) -> (r: CommandWrapper)
    ensures
        r@ == volume_command(subcommand@, cwd@),
{
    let mut command = crate::cmd::new(DOCKER, cwd);
    command.ignore_output = true;
    command.message = "Could not create docker volume".to_owned();
    match subcommand {
        VolumeCmd::Create(name) => {
            command.args = vec!["volume".to_owned(), "create".to_owned(), name];
            assert(texts(command.args@) =~= seq!["volume"@, "create"@, name@]);
        },
    }
    command
}

/// Appends the arguments that name the compose files.
pub fn add_files(args: &mut Vec<String>, files: &Vec<String>)
    ensures
        texts(final(args)@) == texts(old(args)@) + file_args(texts(files@)),
{
    let ghost start = texts(args@);
    let mut i: usize = 0;
    assert(texts(args@) =~= start + file_args(texts(files@)).take(0));
    while i < files.len()
        invariant
            i <= files.len(),
            texts(args@) == start + file_args(texts(files@)).take(2 * i),
        decreases files.len() - i,
    {
        let ghost before = texts(args@);
        args.push("-f".to_owned());
        args.push(files[i].clone());
        proof {
            let all = file_args(texts(files@));
            assert(texts(args@) =~= before.push("-f"@).push(files@[i as int]@));
            assert(all[2 * i] == "-f"@);
            assert(all[2 * i + 1] == files@[i as int]@);
            assert(all.take(2 * i + 2) =~= all.take(2 * i).push(all[2 * i]).push(all[2 * i + 1]));
            assert(texts(args@) =~= start + all.take(2 * (i + 1)));
        }
        i += 1;
    }
    assert(file_args(texts(files@)).take(2 * i) =~= file_args(texts(files@)));
}

/// Appends copies of `more` to `args`.
fn add_args(args: &mut Vec<String>, more: &Vec<String>)
    ensures
        texts(final(args)@) == texts(old(args)@) + texts(more@),
{
    let ghost start = texts(args@);
    let mut i: usize = 0;
    assert(texts(args@) =~= start + texts(more@).take(0));
    while i < more.len()
        invariant
            i <= more.len(),
            texts(args@) == start + texts(more@).take(i as int),
        decreases more.len() - i,
    {
        let ghost before = texts(args@);
        args.push(more[i].clone());
        proof {
            assert(texts(args@) =~= before.push(more@[i as int]@));
            assert(texts(more@).take(i + 1) =~= texts(more@).take(i as int).push(more@[i as int]@));
            assert(texts(args@) =~= start + texts(more@).take(i + 1));
        }
        i += 1;
    }
    assert(texts(more@).take(i as int) =~= texts(more@));
}

/// Appends one argument.
fn add_arg(args: &mut Vec<String>, arg: &str)
    ensures
        texts(final(args)@) == texts(old(args)@).push(arg@),
{
    let ghost before = texts(args@);
    args.push(arg.to_owned());
    assert(texts(args@) =~= before.push(arg@));
}

/// The compose command for the stack in `dir`. The compose files come
/// first, in their order; the output of the two listings is read, that of
/// the other commands shown.
pub fn compose(subcommand: ComposeCmd, dir: &str) -> (r: CommandWrapper)
    ensures
        r@ == compose_command(subcommand@, dir@),
{
    let mut args: Vec<String> = Vec::new();
    add_arg(&mut args, "compose");
    assert(texts(args@) =~= seq!["compose"@]);
    let mut ignore_output = false;
    match &subcommand {
        ComposeCmd::Up(services, files) => {
            add_files(&mut args, files);
            add_arg(&mut args, "up");
            add_arg(&mut args, "-d");
            add_args(&mut args, services);
        },
        ComposeCmd::Down(files) => {
            add_files(&mut args, files);
            add_arg(&mut args, "down");
        },
        ComposeCmd::Config(files) => {
            ignore_output = true;
            add_files(&mut args, files);
            add_arg(&mut args, "config");
            add_arg(&mut args, "--services");
        },
        ComposeCmd::List(files) => {
            ignore_output = true;
            add_files(&mut args, files);
            add_arg(&mut args, "ps");
            add_arg(&mut args, "--format");
            add_arg(&mut args, "json");
        },
        ComposeCmd::Exec(service, files, command) => {
            add_files(&mut args, files);
            add_arg(&mut args, "exec");
            add_arg(&mut args, "-T");
            add_arg(&mut args, service.as_str());
            add_args(&mut args, command);
        },
        ComposeCmd::Run(service, files, command) => {
            add_files(&mut args, files);
            add_arg(&mut args, "run");
            add_arg(&mut args, service.as_str());
            add_args(&mut args, command);
        },
    }
    assert(texts(args@) =~= compose_args(subcommand@));
    CommandWrapper {
        program: DOCKER.to_owned(),
        args,
        dir: dir.to_owned(),
        ignore_output,
        ignore_error: false,
        message: "Could not start project".to_owned(),
    }
}

} // verus!
