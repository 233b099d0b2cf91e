use wsl_proxy::acceptor::{
    awaited, delivered, Acceptor, AcceptorError, Collecting, Collector,
};
use wsl_proxy::streams::{routes, ControlledStreams, ProvidedStreams, ProxyStreams, StreamDir};

#[test]
fn streams_have_an_order() {
    assert_eq!(StreamDir::all(), [StreamDir::Stdin, StreamDir::Stdout, StreamDir::Stderr]);
}

#[test]
fn collected_streams_are_in_their_places() {
    let streams = ProxyStreams::collect(vec![
        (StreamDir::Stderr, 'e'),
        (StreamDir::Stdin, 'i'),
        (StreamDir::Stdout, 'o'),
    ]);
    assert_eq!(streams.stdin, Some('i'));
    assert_eq!(streams.stdout, Some('o'));
    assert_eq!(streams.stderr, Some('e'));
    assert!(streams.is_complete());
}

#[test]
fn later_stream_replaces_earlier() {
    let streams = ProxyStreams::collect(vec![(StreamDir::Stdout, 1), (StreamDir::Stdout, 2)]);
    assert_eq!((streams.stdin, streams.stdout, streams.stderr), (None, Some(2), None));
    assert!(!ProxyStreams::collect(vec![(StreamDir::Stdout, 1)]).is_complete());
}

#[test]
fn stream_is_taken_once() {
    let mut streams = ProxyStreams::new();
    streams.put(StreamDir::Stderr, 3);
    assert_eq!(streams.take(StreamDir::Stdin), None);
    assert_eq!(streams.take(StreamDir::Stderr), Some(3));
    assert_eq!(streams.take(StreamDir::Stderr), None);
}

fn connections(at: &'static str) -> ProxyStreams<(String, String)> {
    ProxyStreams::collect(
        [(StreamDir::Stdin, 0), (StreamDir::Stdout, 1), (StreamDir::Stderr, 2)]
            .into_iter()
            .map(|(dir, n)| (dir, (format!("{}{}r", at, n), format!("{}{}w", at, n))))
            .collect(),
    )
}

#[test]
fn client_writes_input_and_reads_output() {
    let user = ProvidedStreams {
        stdin: "in".to_string(),
        stdout: "out".to_string(),
        stderr: "err".to_string(),
    };
    let routes = routes(user, connections("c").into_controlled());
    assert_eq!((&routes.stdin.from[..], &routes.stdin.to[..]), ("in", "c0w"));
    assert_eq!((&routes.stdout.from[..], &routes.stdout.to[..]), ("c1r", "out"));
    assert_eq!((&routes.stderr.from[..], &routes.stderr.to[..]), ("c2r", "err"));
}

#[test]
fn server_reads_input_and_writes_output() {
    let process = ControlledStreams {
        stdin: "in".to_string(),
        stdout: "out".to_string(),
        stderr: "err".to_string(),
    };
    let routes = routes(connections("s").into_provided(), process);
    assert_eq!((&routes.stdin.from[..], &routes.stdin.to[..]), ("s0r", "in"));
    assert_eq!((&routes.stdout.from[..], &routes.stdout.to[..]), ("out", "s1w"));
    assert_eq!((&routes.stderr.from[..], &routes.stderr.to[..]), ("err", "s2w"));
}

#[test]
fn each_mark_finds_its_channel_once() {
    let mut acceptor = Acceptor::new("in", "out", "err");
    assert_eq!(acceptor.marked(Some(StreamDir::Stdout)), Ok("out"));
    assert_eq!(acceptor.marked(Some(StreamDir::Stdin)), Ok("in"));
    assert_eq!(acceptor.marked(Some(StreamDir::Stdout)), Err(AcceptorError::NoChannel));
    assert_eq!(acceptor.marked(Some(StreamDir::Stderr)), Ok("err"));
    for dir in StreamDir::all() {
        assert_eq!(acceptor.marked(Some(dir)), Err(AcceptorError::NoChannel));
    }
}

#[test]
fn acceptor_is_done_when_every_channel_is_used() {
    let mut acceptor = Acceptor::new("in", "out", "err");
    for dir in [StreamDir::Stderr, StreamDir::Stdin, StreamDir::Stdout] {
        assert!(!acceptor.all_used());
        assert!(acceptor.marked(Some(dir)).is_ok());
    }
    assert!(acceptor.all_used());
}

/// Sends a connection for each of `marks` over the channels, and collects what
/// comes out of them, the last one first.
fn collect_marked(marks: [StreamDir; 3]) -> ProxyStreams<String> {
    let (mut acceptor, awaiters) = Acceptor::with_awaiters((0, 0), (1, 1), (2, 2));
    let mut channels = [None, None, None];
    for mark in marks {
        let channel: usize = acceptor.marked(Some(mark)).unwrap();
        channels[channel] = Some(format!("{:?}", mark));
    }
    let mut collector = Collector::new();
    for (dir, receiver) in awaiters.into_iter().rev() {
        match collector.received(dir, channels[receiver].take()).unwrap() {
            Collecting::More(next) => collector = next,
            Collecting::Done(streams) => {
                assert_eq!(dir, StreamDir::Stdin);
                return streams;
            }
        }
    }
    panic!("not all connections came");
}

#[test]
fn connection_comes_to_the_place_of_its_mark() {
    let [i, o, e] = StreamDir::all();
    for marks in [[i, o, e], [i, e, o], [o, i, e], [o, e, i], [e, i, o], [e, o, i]] {
        let streams = collect_marked(marks);
        assert_eq!(streams.stdin.as_deref(), Some("Stdin"));
        assert_eq!(streams.stdout.as_deref(), Some("Stdout"));
        assert_eq!(streams.stderr.as_deref(), Some("Stderr"));
    }
}

#[test]
fn collecting_ends_if_nothing_comes() {
    let collector = Collector::<u8>::new();
    assert_eq!(
        collector.received(StreamDir::Stdout, None).unwrap_err(),
        AcceptorError::NothingReceived
    );
}

#[test]
fn unmarked_connection_is_jibberish() {
    let mut acceptor = Acceptor::new(0, 1, 2);
    assert_eq!(acceptor.marked(None), Err(AcceptorError::Jibberish));
    assert_eq!(acceptor.marked(Some(StreamDir::Stdin)), Ok(0));
}

#[test]
fn delivery_needs_a_taker() {
    assert_eq!(delivered(true), Ok(()));
    assert_eq!(delivered(false), Err(AcceptorError::AlreadyAttached));
    assert_eq!(awaited(Some(5)), Ok(5));
    assert_eq!(awaited::<u8>(None), Err(AcceptorError::NothingReceived));
}

#[test]
fn acceptor_errors_have_texts() {
    assert_eq!(AcceptorError::Jibberish.message(), "Server sends jibberish!!!");
    assert_eq!(AcceptorError::NoChannel.message(), "Channel to send to is not created yet!!!");
    assert_eq!(
        AcceptorError::AlreadyAttached.message(),
        "Channel to send to was already attached!"
    );
    assert_eq!(
        AcceptorError::NothingReceived.message(),
        "Unable to receive socket for reading!!!"
    );
}
