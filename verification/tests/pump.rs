use bytes::BytesMut;
use wsl_proxy::framing::{write_to_wire, ForkReader, ForkStep};
use wsl_proxy::pump::{Pump, PumpAction, PROXY_BUFFER_SIZE};

/// Copies `frames` to a destination that takes at most `at_once` bytes per
/// write; what it got, and whether it was shut down.
fn copy(frames: &[&[u8]], at_once: usize) -> (Vec<u8>, bool) {
    let mut pump = Pump::new();
    let mut frames = frames.iter();
    let mut got = Vec::new();
    let mut shut = false;
    let mut action: PumpAction<&'static str> = pump.start();
    loop {
        action = match action {
            PumpAction::Read => {
                pump.proxy_residual(Ok(frames.next().map(|frame| BytesMut::from(*frame))))
            }
            PumpAction::Write => {
                let count = pump.to_write().len().min(at_once);
                got.extend_from_slice(&pump.to_write()[..count]);
                pump.wrote(Ok(count))
            }
            PumpAction::Shutdown => {
                shut = true;
                pump.shut_down(Ok(()))
            }
            PumpAction::Finish(result) => {
                assert_eq!(result, Ok(()));
                return (got, shut);
            }
        }
    }
}

#[test]
fn bytes_arrive_in_order() {
    for at_once in 1..8 {
        assert_eq!(copy(&[b"abc", b"", b"defgh", b"i"], at_once), (b"abcdefghi".to_vec(), true));
    }
}

#[test]
fn end_of_source_is_passed_on() {
    assert_eq!(copy(&[], 4), (vec![], true));
}

#[test]
fn copy_starts_with_a_read() {
    assert!(matches!(Pump::new().start::<()>(), PumpAction::Read));
}

#[test]
fn full_destination_ends_the_copy() {
    assert_eq!(copy(&[b"abc"], 0), (vec![], false));
}

#[test]
fn empty_frame_is_not_the_end() {
    let mut pump = Pump::new();
    assert!(matches!(pump.proxy_residual::<()>(Ok(Some(BytesMut::new()))), PumpAction::Read));
}

#[test]
fn empty_read_is_the_end() {
    let mut pump = Pump::new();
    assert!(matches!(pump.proxy::<()>(Ok(&[])), PumpAction::Shutdown));
}

#[test]
fn read_is_written_from_the_front() {
    let mut pump = Pump::new();
    assert!(matches!(pump.proxy::<()>(Ok(b"abcd")), PumpAction::Write));
    assert_eq!(pump.to_write(), b"abcd");
    assert!(matches!(pump.wrote::<()>(Ok(3)), PumpAction::Write));
    assert_eq!(pump.to_write(), b"d");
    assert!(matches!(pump.wrote::<()>(Ok(1)), PumpAction::Read));
    assert_eq!(pump.to_write(), b"");
}

#[test]
fn errors_end_the_copy() {
    let mut pump = Pump::new();
    assert!(matches!(pump.proxy_residual(Err("gone")), PumpAction::Finish(Err("gone"))));
    let mut pump = Pump::new();
    assert!(matches!(pump.proxy(Err("gone")), PumpAction::Finish(Err("gone"))));
    let mut pump = Pump::new();
    assert!(matches!(pump.proxy::<&str>(Ok(b"x")), PumpAction::Write));
    assert!(matches!(pump.wrote(Err("broken")), PumpAction::Finish(Err("broken"))));
    assert!(matches!(pump.shut_down(Err("closed")), PumpAction::Finish(Err("closed"))));
}

#[test]
fn buffer_is_one_mebibyte() {
    assert_eq!(PROXY_BUFFER_SIZE, 1 << 20);
}

#[test]
fn data_behind_a_message_is_copied() {
    let mut stream = write_to_wire(b"marker").unwrap().to_vec();
    stream.extend_from_slice(b"the data");
    for cut in 10..stream.len() {
        match ForkReader::new().fork_to_value(&stream[..cut]).unwrap() {
            ForkStep::Value(message, mut residual) => {
                assert_eq!(&message[..], b"marker");
                let mut chunks = Vec::new();
                chunks.extend(residual.read_ahead().map(|bytes| bytes.to_vec()));
                chunks.extend(residual.received(&stream[cut..]).map(|bytes| bytes.to_vec()));
                let chunks: Vec<&[u8]> = chunks.iter().map(|chunk| &chunk[..]).collect();
                assert_eq!(copy(&chunks, 3), (b"the data".to_vec(), true));
            }
            other => panic!("{:?}", other),
        }
    }
}

/// Reads the first message of `stream`, which comes in pieces of `size` bytes;
/// the message, and what a copy makes of the rest.
fn fork_and_copy(stream: &[u8], size: usize) -> (Vec<u8>, Vec<u8>) {
    let mut reader = ForkReader::new();
    let mut pieces = stream.chunks(size);
    loop {
        match reader.fork_to_value(pieces.next().unwrap()).unwrap() {
            ForkStep::ReadMore(next) => reader = next,
            ForkStep::Value(message, mut residual) => {
                let mut frames = Vec::new();
                frames.extend(residual.read_ahead().map(|bytes| bytes.to_vec()));
                for piece in pieces {
                    frames.extend(residual.received(piece).map(|bytes| bytes.to_vec()));
                }
                let frames: Vec<&[u8]> = frames.iter().map(|frame| &frame[..]).collect();
                let (copied, shut) = copy(&frames, 5);
                assert!(shut);
                return (message.to_vec(), copied);
            }
            other => panic!("{:?}", other),
        }
    }
}

#[test]
fn output_passes_the_daemon_and_the_mark() {
    let mut sent = write_to_wire(b"server of 17").unwrap().to_vec();
    sent.extend_from_slice(&write_to_wire(b"Stdout").unwrap());
    sent.extend_from_slice(b"what the process says");
    for at_daemon in 1..sent.len() {
        let (descriptor, relayed) = fork_and_copy(&sent, at_daemon);
        assert_eq!(descriptor, b"server of 17");
        for at_client in 1..relayed.len() {
            let (mark, shown) = fork_and_copy(&relayed, at_client);
            assert_eq!(mark, b"Stdout");
            assert_eq!(shown, b"what the process says");
        }
    }
}
