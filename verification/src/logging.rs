//! The frame in which each of the programs runs: a log file, and in it the
//! error with which the program ended.

use vstd::prelude::*;
use std::convert::Infallible;

verus! {

/// The log file of a program of the kind `kind`.
pub fn pid_log(kind: &str) -> (log_file: String)
    ensures
        log_file@ == "trace-"@ + kind@ + ".log"@,
{
    let mut log_file: String = "trace-".to_owned();
    log_file.append(kind);
    log_file.append(".log");
    log_file
}

/// Runs `fun`, which comes back only with an error, for the error to be logged.
pub fn log_error<F, E>(fun: F) -> (error: E) where F: FnOnce() -> Result<Infallible, E>
    requires
        fun.requires(()),
        forall|res: Result<Infallible, E>| fun.ensures((), res) ==> res is Err,
    ensures
        fun.ensures((), Err(error)),
{
    match fun() {
        Err(err) => err,
        Ok(_) => vstd::pervasive::unreached(),
    }
}

/// Runs a program: sets the log up in `log_file`, then runs the program itself,
/// and hands out the error with which it ended. The program may be run only
/// once the log is there, so it may count on the log.
pub fn master<I, F, E>(log_file: String, install_tracer: I, try_main: F) -> (error: E) where
    I: FnOnce(String),
    F: FnOnce() -> Result<Infallible, E>,

    requires
        install_tracer.requires((log_file,)),
        install_tracer.ensures((log_file,), ()) ==> try_main.requires(()),
        forall|res: Result<Infallible, E>| try_main.ensures((), res) ==> res is Err,
    ensures
        install_tracer.ensures((log_file,), ()),
        try_main.ensures((), Err(error)),
{
    install_tracer(log_file);
    log_error(try_main)
}

/// `text` with something before and something after it.
pub open spec fn around(before: Seq<char>, text: Seq<char>, after: Seq<char>) -> Seq<char> {
    before + text + after
}

/// The log files of two kinds of programs are named alike but for the kind, so
/// that different kinds never share one.
pub proof fn log_file_tells_the_kind(kind: &str, log_file: String, other: &str, other_file: String)
    requires
        call_ensures(pid_log, (kind,), log_file),
        call_ensures(pid_log, (other,), other_file),
    ensures
        exists|before: Seq<char>, after: Seq<char>|
            log_file@ == #[trigger] around(before, kind@, after) && other_file@ == around(
                before,
                other@,
                after,
            ),
        kind@ != other@ ==> log_file@ != other_file@,
{
    let before = "trace-"@;
    let after = ".log"@;
    assert(log_file@ == around(before, kind@, after));
    if log_file@ == other_file@ {
        let (start, end) = (before.len() as int, log_file@.len() - after.len());
        assert(kind@ =~= log_file@.subrange(start, end));
        assert(other@ =~= other_file@.subrange(start, end));
    }
}

/// The error that comes out is the one with which the program ended; and the
/// log was set up in the file that was named.
pub proof fn error_of_the_program_comes_out<I, F, E>(
    log_file: String,
    install_tracer: I,
    try_main: F,
    error: E,
    logged: E,
) where I: FnOnce(String), F: FnOnce() -> Result<Infallible, E>
    requires
        call_ensures(master::<I, F, E>, (log_file, install_tracer, try_main), error),
        call_ensures(log_error::<F, E>, (try_main,), logged),
    ensures
        install_tracer.ensures((log_file,), ()),
        try_main.ensures((), Err(error)),
        try_main.ensures((), Err(logged)),
{
}

} // verus!
