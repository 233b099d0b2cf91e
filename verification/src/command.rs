//! The command lines of the processes that the client and the server start.

use vstd::prelude::*;
use crate::decimal::{
    ascii, decimal, decimal_has_no_leading_zeros, decimal_is_read_back,
    decimal_stands_for_its_number, decimal_text, digits_value, parsed_u16, stands_for, NumberError,
};
use crate::peer::CommmunicationId;

verus! {

/// An argument of a command line.
#[derive(Debug)]
pub enum Arg<A> {
    /// One that was given, and is passed on as it is.
    Given(A),
    /// One that is made up here.
    Text(String),
}

/// The text of an argument that is made up here.
pub open spec fn is_text<A>(arg: Arg<A>, text: Seq<char>) -> bool {
    arg matches Arg::Text(made_up) && made_up@ == text
}

/// Whether `line` starts the server at `server_path` for the client `pid`: the
/// port of the daemon, the client's process id, and after two dashes the
/// command line of the inferior. If `subcommand` is set, the program at
/// `server_path` first has to be told that it is to be the server.
pub open spec fn starts_server<A>(
    line: Seq<Arg<A>>,
    server_path: A,
    subcommand: bool,
    port: u16,
    pid: CommmunicationId,
    inferior: Seq<A>,
) -> bool {
    let fixed: int = if subcommand {
        5
    } else {
        4
    };
    &&& line.len() == fixed + inferior.len()
    &&& line[0] == Arg::Given(server_path)
    &&& subcommand ==> is_text(line[1], "server"@)
    &&& is_text(line[fixed - 3], decimal(port as int))
    &&& is_text(line[fixed - 2], decimal(pid as int))
    &&& is_text(line[fixed - 1], "--"@)
    &&& forall|i: int|
        0 <= i < inferior.len() ==> line[fixed + i] == Arg::Given(#[trigger] inferior[i])
}

/// The command line with which the client starts its server.
pub fn server_cmd_line<A>(
    server_path: A,
    subcommand: bool,
    port: u16,
    pid: CommmunicationId,
    inferior: Vec<A>,
) -> (line: Vec<Arg<A>>)
    ensures
        starts_server(line@, server_path, subcommand, port, pid, inferior@),
{
    let mut line: Vec<Arg<A>> = Vec::new();
    line.push(Arg::Given(server_path));
    if subcommand {
        line.push(Arg::Text("server".to_owned()));
    }
    line.push(Arg::Text(decimal_text(port as u32)));
    line.push(Arg::Text(decimal_text(pid)));
    line.push(Arg::Text("--".to_owned()));
    let ghost fixed = line@;
    let ghost all = inferior@;
    for arg in iter: inferior.into_iter()
        invariant
            iter.seq() == all,
            line@.len() == fixed.len() + iter.index(),
            forall|i: int| 0 <= i < fixed.len() ==> line@[i] == fixed[i],
            forall|i: int|
                0 <= i < iter.index() ==> line@[fixed.len() + i] == Arg::Given(#[trigger] all[i]),
    {
        line.push(Arg::Given(arg));
    }
    proof {
        let count = fixed.len() as int;
        assert(line@[0] == fixed[0] && line@[1] == fixed[1]);
        assert(line@[count - 3] == fixed[count - 3]);
        assert(line@[count - 2] == fixed[count - 2]);
        assert(line@[count - 1] == fixed[count - 1]);
    }
    line
}

/// The server gets from its command line what the client meant: the port reads
/// back as the port, the digits of the process id stand for it, and the command
/// line of the inferior follows.
pub proof fn server_gets_what_the_client_meant<A>(
    line: Seq<Arg<A>>,
    server_path: A,
    subcommand: bool,
    port: u16,
    pid: CommmunicationId,
    inferior: Seq<A>,
)
    requires
        starts_server(line, server_path, subcommand, port, pid, inferior),
    ensures
        ({
            let first: int = if subcommand {
                2
            } else {
                1
            };
            &&& line[first] matches Arg::Text(text) && parsed_u16(ascii(text@)) == Ok::<
                u16,
                NumberError,
            >(port)
            &&& line[first + 1] matches Arg::Text(text) && digits_value(ascii(text@)) == pid
            &&& line.skip(first + 3) == inferior.map_values(|arg: A| Arg::Given(arg))
        }),
{
    decimal_is_read_back(port);
    decimal_stands_for_its_number(pid as int);
}

/// What a process has for its standard streams.
#[derive(Debug, Clone, Copy, PartialEq, Eq, Structural)]
pub enum StdioMode {
    /// Nothing.
    Null,
    /// Those of the process that starts it.
    Inherit,
    /// Pipes to the process that starts it.
    Piped,
}

/// A process to be started.
#[derive(Debug)]
pub struct ProcessSetup<'a, A> {
    pub program: &'a A,
    pub args: &'a [A],
    pub stdin: StdioMode,
    pub stdout: StdioMode,
    pub stderr: StdioMode,
}

/// Why a process cannot be started.
#[derive(Debug, Clone, Copy, PartialEq, Eq, Structural)]
pub enum CommandError {
    /// The command line does not even name a program.
    EmptyCommandLine,
}

impl CommandError {
    /// The text for the log.
    pub fn message(&self) -> (text: String)
        ensures
            text@ == "Expected to have non-empty command-line for inferior"@,
    {
        "Expected to have non-empty command-line for inferior".to_owned()
    }
}

/// Whether `setup` starts the program that comes first in `cmd_line` with the
/// rest as its arguments, and with all its standard streams of the kind `io`.
pub open spec fn starts<A>(setup: ProcessSetup<'_, A>, cmd_line: Seq<A>, io: StdioMode) -> bool {
    &&& *setup.program == cmd_line[0]
    &&& setup.args@ == cmd_line.skip(1)
    &&& setup.stdin == io
    &&& setup.stdout == io
    &&& setup.stderr == io
}

/// The process that `cmd_line` describes: the program comes first, and the rest
/// are its arguments. All its standard streams are of the kind `io`.
pub fn setup_process<'a, A>(cmd_line: &'a Vec<A>, io: StdioMode) -> (res: Result<
    ProcessSetup<'a, A>,
    CommandError,
>)
    ensures
        match res {
            Ok(setup) => cmd_line@.len() > 0 && starts(setup, cmd_line@, io),
            Err(error) => cmd_line@.len() == 0 && error == CommandError::EmptyCommandLine,
        },
{
    if cmd_line.len() == 0 {
        return Err(CommandError::EmptyCommandLine);
    }
    let args = vstd::slice::slice_subrange(cmd_line.as_slice(), 1, cmd_line.len());
    Ok(ProcessSetup { program: &cmd_line[0], args, stdin: io, stdout: io, stderr: io })
}

/// The inferior, whose standard streams the server copies.
pub fn inferior_setup<'a, A>(cmd_line: &'a Vec<A>) -> (res: Result<
    ProcessSetup<'a, A>,
    CommandError,
>)
    ensures
        match res {
            Ok(setup) => cmd_line@.len() > 0 && starts(setup, cmd_line@, StdioMode::Piped),
            Err(error) => cmd_line@.len() == 0 && error == CommandError::EmptyCommandLine,
        },
{
    setup_process(cmd_line, StdioMode::Piped)
}

/// The server, which the client starts. A server that is a program of its own
/// has no use for standard streams; one that is the client's program in another
/// role shares them.
pub fn server_setup<'a, A>(cmd_line: &'a Vec<A>, subcommand: bool) -> (res: Result<
    ProcessSetup<'a, A>,
    CommandError,
>)
    ensures
        match res {
            Ok(setup) => cmd_line@.len() > 0 && starts(
                setup,
                cmd_line@,
                if subcommand {
                    StdioMode::Inherit
                } else {
                    StdioMode::Null
                },
            ),
            Err(error) => cmd_line@.len() == 0 && error == CommandError::EmptyCommandLine,
        },
{
    if subcommand {
        setup_process(cmd_line, StdioMode::Inherit)
    } else {
        setup_process(cmd_line, StdioMode::Null)
    }
}

/// What stands in the command line of the server, whatever it is to run: first
/// the path that was given, then, if the program has to be told its role, that
/// role, and right before the command line of the inferior two dashes. Between
/// them are the port and the process id, in digits.
pub proof fn server_is_started_by_its_path<A>(
    server_path: A,
    subcommand: bool,
    port: u16,
    pid: CommmunicationId,
    inferior: Vec<A>,
    line: Vec<Arg<A>>,
)
    requires
        call_ensures(server_cmd_line::<A>, (server_path, subcommand, port, pid, inferior), line),
    ensures
        ({
            let before = line@.len() - inferior@.len();
            &&& before == (if subcommand {
                5int
            } else {
                4int
            })
            &&& line@[0] == Arg::Given(server_path)
            &&& subcommand ==> (line@[1] matches Arg::Text(role) && role@ == "server"@)
            &&& line@[before - 3] matches Arg::Text(text) && stands_for(text@, port as int)
            &&& line@[before - 2] matches Arg::Text(text) && stands_for(text@, pid as int)
            &&& line@[before - 1] matches Arg::Text(text) && text@ == "--"@
            &&& forall|i: int|
                0 <= i < inferior@.len() ==> line@[before + i] == Arg::Given(
                    #[trigger] inferior@[i],
                )
        }),
{
    decimal_stands_for_its_number(port as int);
    decimal_stands_for_its_number(pid as int);
    decimal_has_no_leading_zeros(port as int);
    decimal_has_no_leading_zeros(pid as int);
}

/// A process is started from the whole of its command line: the program and
/// then the arguments are the command line again. Each of its standard streams
/// is of the kind that was asked for. Only an empty command line starts nothing.
pub proof fn setup_is_the_whole_command_line<A>(
    cmd_line: &Vec<A>,
    io: StdioMode,
    res: Result<ProcessSetup<'_, A>, CommandError>,
)
    requires
        call_ensures(setup_process::<A>, (cmd_line, io), res),
    ensures
        cmd_line@.len() == 0 <==> res is Err,
        res matches Ok(setup) ==> {
            &&& seq![*setup.program] + setup.args@ == cmd_line@
            &&& setup.stdin == io && setup.stdout == io && setup.stderr == io
        },
{
}

/// The inferior is started from the whole of its command line, and each of its
/// standard streams is a pipe.
pub proof fn inferior_has_three_pipes<A>(
    cmd_line: &Vec<A>,
    res: Result<ProcessSetup<'_, A>, CommandError>,
)
    requires
        call_ensures(inferior_setup::<A>, (cmd_line,), res),
    ensures
        cmd_line@.len() == 0 <==> res is Err,
        res matches Ok(setup) ==> {
            &&& seq![*setup.program] + setup.args@ == cmd_line@
            &&& setup.stdin is Piped && setup.stdout is Piped && setup.stderr is Piped
        },
{
}

/// The server is started from the whole of its command line. It has the
/// standard streams of the client if it is the same program, and else none.
pub proof fn server_has_no_pipes<A>(
    cmd_line: &Vec<A>,
    subcommand: bool,
    res: Result<ProcessSetup<'_, A>, CommandError>,
)
    requires
        call_ensures(server_setup::<A>, (cmd_line, subcommand), res),
    ensures
        cmd_line@.len() == 0 <==> res is Err,
        res matches Ok(setup) ==> {
            &&& seq![*setup.program] + setup.args@ == cmd_line@
            &&& subcommand ==> setup.stdin is Inherit && setup.stdout is Inherit
                && setup.stderr is Inherit
            &&& !subcommand ==> setup.stdin is Null && setup.stdout is Null && setup.stderr is Null
        },
{
}

} // verus!
