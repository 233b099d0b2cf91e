//! How the daemon comes to serve, and when it stops.

use vstd::prelude::*;
use crate::decimal::{signed_decimal, signed_decimal_text};
use crate::logging::around;

verus! {

/// Why the daemon does not serve.
#[derive(Debug, Clone, Copy, PartialEq, Eq, Structural)]
pub enum DaemonError {
    /// It could not be put into the background; the return value of the fork.
    ForkFailed(i32),
    /// The port file names another port: another daemon was faster.
    PortTaken,
}

impl DaemonError {
    /// The text for the log.
    pub open spec fn text(self) -> Seq<char> {
        match self {
            DaemonError::ForkFailed(value) => "Failed to fork, return value is ("@
                + signed_decimal(value as int) + ")"@,
            DaemonError::PortTaken => "Failed to become the daemon that will service clients"@,
        }
    }

    /// The text for the log.
    pub fn message(&self) -> (text: String)
        ensures
            text@ == self.text(),
    {
        match self {
            DaemonError::ForkFailed(value) => {
                let mut text: String = "Failed to fork, return value is (".to_owned();
                text.append(signed_decimal_text(*value).as_str());
                text.append(")");
                text
            },
            DaemonError::PortTaken =>
                "Failed to become the daemon that will service clients".to_owned(),
        }
    }
}

/// Which process came back from a fork.
#[derive(Debug, Clone, Copy, PartialEq, Eq, Structural)]
pub enum Forked {
    Parent,
    Child,
}

/// What to do next.
#[derive(Debug)]
pub enum DaemonAction<E> {
    /// Go on.
    Continue,
    /// End the process with this code.
    Exit(i32),
    /// Give up with this error.
    Fail(E),
}

/// After the fork: the child goes on as the daemon, the parent has done its
/// part.
pub fn after_fork(forked: Result<Forked, i32>) -> (action: DaemonAction<DaemonError>)
    ensures
        action == (match forked {
            Ok(Forked::Child) => DaemonAction::Continue,
            Ok(Forked::Parent) => DaemonAction::Exit(0),
            Err(value) => DaemonAction::Fail(DaemonError::ForkFailed(value)),
        }),
{
    match forked {
        Err(value) => DaemonAction::Fail(DaemonError::ForkFailed(value)),
        Ok(Forked::Child) => DaemonAction::Continue,
        Ok(Forked::Parent) => DaemonAction::Exit(0),
    }
}

/// After the port `bound` was left in the port file and `read` was read from
/// it: only if it is the same do the clients find this daemon.
pub fn confirm_port(read: u16, bound: u16) -> (res: Result<(), DaemonError>)
    ensures
        res == (if read == bound {
            Ok(())
        } else {
            Err(DaemonError::PortTaken)
        }),
{
    if read != bound {
        Err(DaemonError::PortTaken)
    } else {
        Ok(())
    }
}

/// What the daemon has waited for.
#[derive(Debug)]
pub enum DaemonEvent<E> {
    /// A connection was taken, or could not be.
    Accepted(Result<(), E>),
    /// The user wants the daemon to stop, or that could not be waited for.
    Interrupted(Result<(), E>),
}

/// While the daemon serves: it goes on until it is interrupted or an error
/// comes.
pub fn while_serving<E>(event: DaemonEvent<E>) -> (action: DaemonAction<E>)
    ensures
        action == (match event {
            DaemonEvent::Accepted(Ok(())) => DaemonAction::Continue,
            DaemonEvent::Interrupted(Ok(())) => DaemonAction::Exit(0),
            DaemonEvent::Accepted(Err(error)) => DaemonAction::Fail(error),
            DaemonEvent::Interrupted(Err(error)) => DaemonAction::Fail(error),
        }),
{
    match event {
        DaemonEvent::Accepted(Ok(())) => DaemonAction::Continue,
        DaemonEvent::Accepted(Err(error)) => DaemonAction::Fail(error),
        DaemonEvent::Interrupted(Ok(())) => DaemonAction::Exit(0),
        DaemonEvent::Interrupted(Err(error)) => DaemonAction::Fail(error),
    }
}

/// A failed fork is told with its return value: the texts of two such failures
/// are the same but for the number, which is written in the usual way, with a
/// minus sign if it is negative.
pub proof fn failed_fork_is_told(
    forked: i32,
    action: DaemonAction<DaemonError>,
    text: String,
    other: i32,
    other_text: String,
    number: String,
    other_number: String,
)
    requires
        call_ensures(after_fork, (Err::<Forked, i32>(forked),), action),
        action matches DaemonAction::Fail(error) ==> call_ensures(
            DaemonError::message,
            (&error,),
            text,
        ),
        call_ensures(DaemonError::message, (&DaemonError::ForkFailed(other),), other_text),
        call_ensures(signed_decimal_text, (forked,), number),
        call_ensures(signed_decimal_text, (other,), other_number),
    ensures
        action matches DaemonAction::Fail(DaemonError::ForkFailed(value)) && value == forked,
        exists|before: Seq<char>, after: Seq<char>|
            text@ == #[trigger] around(before, number@, after) && other_text@ == around(
                before,
                other_number@,
                after,
            ),
{
    let before = "Failed to fork, return value is ("@;
    let after = ")"@;
    assert(text@ == around(before, number@, after));
}

/// Of the two processes that come back from a fork exactly one goes on; the
/// other ends, as a success.
pub proof fn one_of_two_goes_on(
    parent: DaemonAction<DaemonError>,
    child: DaemonAction<DaemonError>,
)
    requires
        call_ensures(after_fork, (Ok::<Forked, i32>(Forked::Parent),), parent),
        call_ensures(after_fork, (Ok::<Forked, i32>(Forked::Child),), child),
    ensures
        child is Continue,
        parent == DaemonAction::<DaemonError>::Exit(0),
{
}

/// A daemon serves if and only if the clients find the port that it listens on:
/// of two daemons with different ports, the same port file confirms one at
/// most.
pub proof fn port_is_confirmed_by_the_port_file(
    read: u16,
    bound: u16,
    res: Result<(), DaemonError>,
    other: u16,
    other_res: Result<(), DaemonError>,
)
    requires
        call_ensures(confirm_port, (read, bound), res),
        call_ensures(confirm_port, (read, other), other_res),
    ensures
        res is Ok <==> read == bound,
        res matches Err(error) ==> error is PortTaken,
        bound != other ==> res is Err || other_res is Err,
{
}

/// The daemon goes on exactly after a connection was taken, ends as a success
/// exactly when it was interrupted, and gives up with the very error that came
/// after everything else.
pub proof fn daemon_serves_until_it_is_interrupted<E>(
    event: DaemonEvent<E>,
    action: DaemonAction<E>,
    error: E,
)
    requires
        call_ensures(while_serving::<E>, (event,), action),
    ensures
        action is Continue <==> (event matches DaemonEvent::Accepted(Ok(_))),
        action matches DaemonAction::Exit(code) ==> code == 0,
        action is Exit <==> (event matches DaemonEvent::Interrupted(Ok(_))),
        action == DaemonAction::Fail(error) <==> (event == DaemonEvent::<E>::Accepted(Err(error))
            || event == DaemonEvent::<E>::Interrupted(Err(error))),
{
}

} // verus!
