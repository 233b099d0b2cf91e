use wsl_proxy::buffer::MAX_FRAME_LENGTH;
use wsl_proxy::framing::{write_to_wire, ForkReader, ForkStep, FrameError, Residual};

/// Reads the first message out of `chunks`; the message and all that follows.
fn fork(chunks: &[&[u8]]) -> Option<(Vec<u8>, Vec<u8>)> {
    let mut reader = ForkReader::new();
    for (i, chunk) in chunks.iter().enumerate() {
        match reader.fork_to_value(chunk).unwrap() {
            ForkStep::ReadMore(next) => reader = next,
            ForkStep::Value(message, mut residual) => {
                let mut rest = Vec::new();
                if let Some(bytes) = residual.read_ahead() {
                    rest.extend_from_slice(&bytes);
                }
                for chunk in &chunks[i + 1..] {
                    rest.extend_from_slice(&residual.received(chunk).unwrap());
                }
                assert!(residual.received(&[]).is_none());
                return Some((message.to_vec(), rest));
            }
            ForkStep::Ended => return None,
        }
    }
    None
}

#[test]
fn frame_is_length_and_message() {
    let frame = write_to_wire(b"Client").unwrap();
    assert_eq!(&frame[..], b"\x00\x00\x00\x06Client");
}

#[test]
fn length_is_big_endian() {
    let frame = write_to_wire(&[7; 0x010203]).unwrap();
    assert_eq!(&frame[..4], &[0, 1, 2, 3]);
    assert_eq!(frame.len(), 4 + 0x010203);
}

#[test]
fn empty_message_has_a_frame() {
    let frame = write_to_wire(&[]).unwrap();
    assert_eq!(&frame[..], &[0, 0, 0, 0]);
    assert_eq!(fork(&[&frame]), Some((vec![], vec![])));
}

#[test]
fn longest_message_is_written() {
    assert_eq!(write_to_wire(&vec![0; MAX_FRAME_LENGTH]).unwrap().len(), MAX_FRAME_LENGTH + 4);
}

#[test]
fn longer_message_is_not_written() {
    assert_eq!(
        write_to_wire(&vec![0; MAX_FRAME_LENGTH + 1]).unwrap_err(),
        FrameError::TooLong
    );
}

#[test]
fn message_is_read_wherever_the_stream_is_cut() {
    let mut stream = write_to_wire(b"peer").unwrap().to_vec();
    stream.extend_from_slice(b"and the rest");
    for first in 1..stream.len() {
        for second in first + 1..stream.len() {
            assert_eq!(
                fork(&[&stream[..first], &stream[first..second], &stream[second..]]),
                Some((b"peer".to_vec(), b"and the rest".to_vec()))
            );
        }
    }
    let single: Vec<&[u8]> = stream.chunks(1).collect();
    assert_eq!(fork(&single), Some((b"peer".to_vec(), b"and the rest".to_vec())));
}

#[test]
fn second_message_is_passed_on() {
    let mut stream = write_to_wire(b"peer").unwrap().to_vec();
    stream.extend_from_slice(&write_to_wire(b"dir").unwrap());
    stream.extend_from_slice(b"data");
    let (peer, rest) = fork(&[&stream]).unwrap();
    assert_eq!(peer, b"peer");
    assert_eq!(fork(&[&rest[..3], &rest[3..]]), Some((b"dir".to_vec(), b"data".to_vec())));
}

#[test]
fn reader_waits_for_the_whole_message() {
    let reader = ForkReader::new();
    let reader = match reader.fork_to_value(&[0, 0, 0, 2]).unwrap() {
        ForkStep::ReadMore(reader) => reader,
        other => panic!("{:?}", other),
    };
    let reader = match reader.fork_to_value(b"a").unwrap() {
        ForkStep::ReadMore(reader) => reader,
        other => panic!("{:?}", other),
    };
    match reader.fork_to_value(b"bc").unwrap() {
        ForkStep::Value(message, mut residual) => {
            assert_eq!(&message[..], b"ab");
            assert_eq!(&residual.read_ahead().unwrap()[..], b"c");
            assert!(residual.read_ahead().is_none());
        }
        other => panic!("{:?}", other),
    }
}

#[test]
fn stream_without_a_message_ends() {
    assert!(matches!(ForkReader::new().fork_to_value(&[]), Ok(ForkStep::Ended)));
}

#[test]
fn header_alone_counts_as_no_message() {
    match ForkReader::new().fork_to_value(&[0, 0, 0, 5]).unwrap() {
        ForkStep::ReadMore(reader) => {
            assert!(matches!(reader.fork_to_value(&[]), Ok(ForkStep::Ended)));
        }
        other => panic!("{:?}", other),
    }
}

#[test]
fn cut_frame_is_an_error() {
    for part in [&[0u8, 0][..], &[0, 0, 0], &[0, 0, 0, 5, 1], &[0, 0, 0, 2, 9]] {
        match ForkReader::new().fork_to_value(part).unwrap() {
            ForkStep::ReadMore(reader) => {
                assert_eq!(reader.fork_to_value(&[]).unwrap_err(), FrameError::Truncated);
            }
            other => panic!("{:?}", other),
        }
    }
}

#[test]
fn too_long_frame_is_refused_at_its_header() {
    assert_eq!(
        ForkReader::new().fork_to_value(&[0, 0x80, 0, 1]).unwrap_err(),
        FrameError::TooLong
    );
    assert!(matches!(
        ForkReader::new().fork_to_value(&[0, 0x80, 0, 0]),
        Ok(ForkStep::ReadMore(_))
    ));
}

#[test]
fn residual_passes_reads_on() {
    let mut residual = Residual::new();
    assert!(residual.read_ahead().is_none());
    assert_eq!(&residual.received(b"xyz").unwrap()[..], b"xyz");
    assert!(residual.read_ahead().is_none());
    assert!(residual.received(b"").is_none());
}

#[test]
fn frame_errors_have_texts() {
    assert_eq!(FrameError::TooLong.message(), "frame size too big");
    assert_eq!(FrameError::Truncated.message(), "bytes remaining on stream");
}
