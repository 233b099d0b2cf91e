use std::convert::Infallible;
use wsl_proxy::child::{flatten, proxy_child};
use wsl_proxy::command::{
    inferior_setup, server_cmd_line, server_setup, setup_process, Arg, CommandError, StdioMode,
};
use wsl_proxy::daemon::{
    after_fork, confirm_port, while_serving, DaemonAction, DaemonError, DaemonEvent, Forked,
};
use wsl_proxy::logging::{log_error, master, pid_log};

fn texts(line: Vec<Arg<&'static str>>) -> Vec<String> {
    line.into_iter()
        .map(|arg| match arg {
            Arg::Given(given) => format!("<{}>", given),
            Arg::Text(text) => text,
        })
        .collect()
}

#[test]
fn server_is_started_with_port_and_pid() {
    assert_eq!(
        texts(server_cmd_line("srv.exe", false, 40123, 4711, vec!["cmd", "--", "/c"])),
        ["<srv.exe>", "40123", "4711", "--", "<cmd>", "<-->", "</c>"]
    );
}

#[test]
fn server_in_the_same_program_is_a_subcommand() {
    assert_eq!(
        texts(server_cmd_line("proxy.exe", true, 1, 0, vec![])),
        ["<proxy.exe>", "server", "1", "0", "--"]
    );
}

#[test]
fn first_argument_is_the_program() {
    let line = vec!["prog", "a", "b"];
    let setup = setup_process(&line, StdioMode::Inherit).unwrap();
    assert_eq!(*setup.program, "prog");
    assert_eq!(setup.args, ["a", "b"]);
    assert_eq!(
        (setup.stdin, setup.stdout, setup.stderr),
        (StdioMode::Inherit, StdioMode::Inherit, StdioMode::Inherit)
    );
}

#[test]
fn streams_depend_on_the_process() {
    let line = vec!["prog"];
    let inferior = inferior_setup(&line).unwrap();
    assert_eq!(inferior.stdin, StdioMode::Piped);
    assert_eq!(inferior.stderr, StdioMode::Piped);
    assert!(inferior.args.is_empty());
    assert_eq!(server_setup(&line, false).unwrap().stdout, StdioMode::Null);
    assert_eq!(server_setup(&line, true).unwrap().stdout, StdioMode::Inherit);
}

#[test]
fn empty_command_line_is_refused() {
    let line: Vec<u8> = vec![];
    assert_eq!(
        setup_process(&line, StdioMode::Null).unwrap_err(),
        CommandError::EmptyCommandLine
    );
    assert_eq!(inferior_setup(&line).unwrap_err(), CommandError::EmptyCommandLine);
    assert_eq!(server_setup(&line, true).unwrap_err(), CommandError::EmptyCommandLine);
    assert_eq!(
        CommandError::EmptyCommandLine.message(),
        "Expected to have non-empty command-line for inferior"
    );
}

#[test]
fn nested_results_are_flattened() {
    let flat = |res: Result<Result<u8, u16>, u32>| -> Result<u8, u64> { flatten(res) };
    assert_eq!(flat(Ok(Ok(1))), Ok(1));
    assert_eq!(flat(Ok(Err(2))), Err(2));
    assert_eq!(flat(Err(3)), Err(3));
}

#[test]
fn child_status_counts_unless_a_copy_failed() {
    let outcome = |copied: Option<Result<Result<(), u16>, u32>>| -> Result<&str, u64> {
        proxy_child(Ok::<&str, u8>("status"), copied)
    };
    assert_eq!(outcome(None), Ok("status"));
    assert_eq!(outcome(Some(Ok(Ok(())))), Ok("status"));
    assert_eq!(outcome(Some(Ok(Err(5)))), Err(5));
    assert_eq!(outcome(Some(Err(6))), Err(6));
}

#[test]
fn failed_wait_counts_for_most() {
    let outcome = |copied: Option<Result<Result<(), u16>, u32>>| -> Result<&str, u64> {
        proxy_child(Err::<&str, u8>(7), copied)
    };
    assert_eq!(outcome(None), Err(7));
    assert_eq!(outcome(Some(Ok(Ok(())))), Err(7));
    assert_eq!(outcome(Some(Ok(Err(5)))), Err(7));
    assert_eq!(outcome(Some(Err(6))), Err(7));
}

#[test]
fn child_goes_on_after_the_fork() {
    assert!(matches!(after_fork(Ok(Forked::Child)), DaemonAction::Continue));
    assert!(matches!(after_fork(Ok(Forked::Parent)), DaemonAction::Exit(0)));
    assert!(matches!(
        after_fork(Err(-1)),
        DaemonAction::Fail(DaemonError::ForkFailed(-1))
    ));
}

#[test]
fn only_the_daemon_in_the_port_file_serves() {
    assert_eq!(confirm_port(80, 80), Ok(()));
    assert_eq!(confirm_port(80, 81), Err(DaemonError::PortTaken));
}

#[test]
fn daemon_serves_until_it_is_stopped() {
    assert!(matches!(while_serving::<u8>(DaemonEvent::Accepted(Ok(()))), DaemonAction::Continue));
    assert!(matches!(while_serving::<u8>(DaemonEvent::Interrupted(Ok(()))), DaemonAction::Exit(0)));
    assert!(matches!(while_serving(DaemonEvent::Accepted(Err(1))), DaemonAction::Fail(1)));
    assert!(matches!(while_serving(DaemonEvent::Interrupted(Err(2))), DaemonAction::Fail(2)));
}

#[test]
fn daemon_errors_have_texts() {
    assert_eq!(
        DaemonError::ForkFailed(-1).message(),
        "Failed to fork, return value is (-1)"
    );
    assert_eq!(
        DaemonError::ForkFailed(12).message(),
        "Failed to fork, return value is (12)"
    );
    assert_eq!(
        DaemonError::PortTaken.message(),
        "Failed to become the daemon that will service clients"
    );
}

#[test]
fn log_file_is_named_after_the_program() {
    assert_eq!(pid_log("client"), "trace-client.log");
    assert_eq!(pid_log(""), "trace-.log");
}

#[test]
fn error_of_the_program_is_handed_out() {
    assert_eq!(log_error(|| -> Result<Infallible, &str> { Err("over") }), "over");
}

#[test]
fn log_is_set_up_before_the_program_runs() {
    let order = std::cell::RefCell::new(Vec::new());
    let error = master(
        pid_log("server"),
        |log_file| order.borrow_mut().push(log_file),
        || -> Result<Infallible, u8> {
            order.borrow_mut().push("ran".to_string());
            Err(9)
        },
    );
    assert_eq!(error, 9);
    assert_eq!(order.into_inner(), ["trace-server.log", "ran"]);
}
