//! Messages on a byte stream. A message travels in a frame; after the first
//! one the reader forks: the message goes one way, and all that follows it, a
//! stream of plain bytes, another.

use vstd::prelude::*;
use bytes::BytesMut;
use crate::buffer::{
    after_first_frame, announced_length, announces_too_much, buffer_from, contents, decode_bytes,
    decode_frame, decode_last_frame, encode_frame, first_message, frame, header, holds_frame,
    MAX_FRAME_LENGTH,
};

verus! {

/// A stream of plain bytes, of which some may have been read ahead.
#[derive(Debug)]
pub struct Residual {
    rest: BytesMut,
}

impl View for Residual {
    type V = Seq<u8>;

    closed spec fn view(&self) -> Seq<u8> {
        contents(self.rest)
    }
}

impl Residual {
    /// A stream of which nothing has been read ahead.
    pub fn new() -> (residual: Self)
        ensures
            residual@ == Seq::<u8>::empty(),
    {
        Residual { rest: buffer_from(&[]) }
    }

    /// The bytes that have been read ahead, if there are any; with `None` the
    /// stream itself has to be read.
    pub fn read_ahead(&mut self) -> (bytes: Option<BytesMut>)
        ensures
            final(self)@ == Seq::<u8>::empty(),
            match bytes {
                Some(bytes) => contents(bytes) == old(self)@ && old(self)@.len() > 0,
                None => old(self)@.len() == 0,
            },
    {
        match decode_bytes(&mut self.rest) {
            Ok(bytes) => bytes,
            Err(_) => None,
        }
    }

    /// The next bytes of the stream, of which `read` has just been read, after
    /// what had been read ahead was gone. With `None` the stream has ended.
    pub fn received(&mut self, read: &[u8]) -> (bytes: Option<BytesMut>)
        requires
            old(self)@.len() == 0,
        ensures
            final(self)@ == Seq::<u8>::empty(),
            match bytes {
                Some(bytes) => contents(bytes) == read@ && read@.len() > 0,
                None => read@.len() == 0,
            },
    {
        self.rest = buffer_from(read);
        self.read_ahead()
    }
}

/// Why a message cannot be read or written.
#[derive(Debug, Clone, Copy, PartialEq, Eq, Structural)]
pub enum FrameError {
    /// The message is longer than a frame may be.
    TooLong,
    /// The stream ended in the middle of a frame.
    Truncated,
}

impl FrameError {
    /// The text for the log.
    pub fn message(&self) -> (text: String)
        ensures
            text@ == (match self {
                FrameError::TooLong => "frame size too big"@,
                FrameError::Truncated => "bytes remaining on stream"@,
            }),
    {
        match self {
            FrameError::TooLong => "frame size too big".to_owned(),
            FrameError::Truncated => "bytes remaining on stream".to_owned(),
        }
    }
}

/// The bytes to send so that the reader gets `message`.
pub fn write_to_wire(message: &[u8]) -> (res: Result<BytesMut, FrameError>)
    ensures
        match res {
            Ok(bytes) => message@.len() <= MAX_FRAME_LENGTH && contents(bytes) == frame(message@),
            Err(error) => message@.len() > MAX_FRAME_LENGTH && error == FrameError::TooLong,
        },
{
    match encode_frame(message) {
        Ok(bytes) => Ok(bytes),
        Err(_) => Err(FrameError::TooLong),
    }
}

/// Where a reader of the first message stands.
pub enum ForkState {
    /// More is needed; these bytes have come so far.
    Reading(Seq<u8>),
    /// The first message, and the bytes that came with it and follow it.
    Forked(Seq<u8>, Seq<u8>),
    /// The stream ended without a message.
    Ended,
    /// There is no message to be had.
    Failed(FrameError),
}

/// Where a reader stands that had `so_far` and then got `read`. To read
/// nothing is to have reached the end of the stream.
pub open spec fn fork_state(so_far: Seq<u8>, read: Seq<u8>) -> ForkState {
    let input = so_far + read;
    if holds_frame(input) {
        ForkState::Forked(first_message(input), after_first_frame(input))
    } else if announces_too_much(input) {
        ForkState::Failed(FrameError::TooLong)
    } else if read.len() > 0 {
        ForkState::Reading(input)
    } else if input.len() == 0 || input.len() == 4 {
        ForkState::Ended
    } else {
        ForkState::Failed(FrameError::Truncated)
    }
}

/// Reads the first message of a stream.
#[derive(Debug)]
pub struct ForkReader {
    so_far: Vec<u8>,
}

/// What came of a read.
#[derive(Debug)]
pub enum ForkStep {
    /// The message has not come in full: read on.
    ReadMore(ForkReader),
    /// The message is here, and the stream continues with the residual.
    Value(BytesMut, Residual),
    /// The stream ended without a message.
    Ended,
}

impl View for ForkReader {
    type V = Seq<u8>;

    closed spec fn view(&self) -> Seq<u8> {
        self.so_far@
    }
}

/// Where the reader stands that answered `res`.
pub open spec fn fork_outcome(res: Result<ForkStep, FrameError>) -> ForkState {
    match res {
        Ok(ForkStep::ReadMore(reader)) => ForkState::Reading(reader@),
        Ok(ForkStep::Value(message, residual)) => ForkState::Forked(contents(message), residual@),
        Ok(ForkStep::Ended) => ForkState::Ended,
        Err(error) => ForkState::Failed(error),
    }
}

impl ForkReader {
    /// A reader goes on only while no frame is complete or refused.
    #[verifier::type_invariant]
    spec fn undecided(self) -> bool {
        !holds_frame(self.so_far@) && !announces_too_much(self.so_far@)
    }

    /// A reader at the start of a stream.
    pub fn new() -> (reader: Self)
        ensures
            reader@ == Seq::<u8>::empty(),
    {
        ForkReader { so_far: Vec::new() }
    }

    /// Goes on with the bytes `read`, which are empty at the end of the stream.
    pub fn fork_to_value(self, read: &[u8]) -> (res: Result<ForkStep, FrameError>)
        ensures
            fork_outcome(res) == fork_state(self@, read@),
    {
        proof {
            use_type_invariant(&self);
        }
        let mut so_far = self.so_far;
        so_far.extend_from_slice(read);
        assert(so_far@ =~= self@ + read@);
        if read.len() == 0 {
            match decode_last_frame(so_far.as_slice()) {
                Ok(Some((message, rest))) => Ok(ForkStep::Value(message, Residual { rest })),
                Ok(None) => Ok(ForkStep::Ended),
                Err(_) => Err(FrameError::Truncated),
            }
        } else {
            match decode_frame(so_far.as_slice()) {
                Ok(Some((message, rest))) => Ok(ForkStep::Value(message, Residual { rest })),
                Ok(None) => Ok(ForkStep::ReadMore(ForkReader { so_far })),
                Err(_) => Err(FrameError::TooLong),
            }
        }
    }
}

/// Where a reader forks who had `so_far` and then reads `chunks` one after the
/// other: the message, the bytes that came with it and follow it, and the
/// chunks that it leaves unread. `None` if it gets no message.
pub open spec fn forked(so_far: Seq<u8>, chunks: Seq<Seq<u8>>) -> Option<
    (Seq<u8>, Seq<u8>, Seq<Seq<u8>>),
>
    decreases chunks.len(),
{
    if chunks.len() == 0 {
        None
    } else {
        match fork_state(so_far, chunks.first()) {
            ForkState::Reading(input) => forked(input, chunks.drop_first()),
            ForkState::Forked(message, ahead) => Some((message, ahead, chunks.drop_first())),
            ForkState::Ended => None,
            ForkState::Failed(_) => None,
        }
    }
}

/// The message that such a reader gets, and the bytes that follow the message:
/// those that came with it and those that are still to be read.
pub open spec fn message_and_rest(so_far: Seq<u8>, chunks: Seq<Seq<u8>>) -> Option<
    (Seq<u8>, Seq<u8>),
> {
    match forked(so_far, chunks) {
        None => None,
        Some((message, ahead, unread)) => Some((message, ahead + unread.flatten())),
    }
}

/// A frame announces the length of its message.
proof fn frame_announces_its_length(message: Seq<u8>, rest: Seq<u8>)
    requires
        message.len() <= MAX_FRAME_LENGTH,
    ensures
        announced_length(frame(message) + rest) == message.len(),
{
}

/// A reader that has part of a frame gets the message from the rest.
proof fn frame_is_read_to_its_end(
    message: Seq<u8>,
    rest: Seq<u8>,
    so_far: Seq<u8>,
    chunks: Seq<Seq<u8>>,
)
    requires
        message.len() <= MAX_FRAME_LENGTH,
        so_far + chunks.flatten() == frame(message) + rest,
        so_far.len() < frame(message).len(),
        forall|i: int| 0 <= i < chunks.len() ==> (#[trigger] chunks[i]).len() > 0,
    ensures
        message_and_rest(so_far, chunks) == Some((message, rest)),
    decreases chunks.len(),
{
    let stream = frame(message) + rest;
    frame_announces_its_length(message, rest);
    let input = so_far + chunks.first();
    let unread = chunks.drop_first().flatten();
    assert(input + unread =~= stream);
    assert(input =~= stream.take(input.len() as int));
    if input.len() >= frame(message).len() {
        assert(stream.skip(frame(message).len() as int) =~= rest);
    } else {
        frame_is_read_to_its_end(message, rest, input, chunks.drop_first());
    }
}

/// Reading what was written: a stream that starts with the frame of `message`
/// gives the reader `message`, and after it exactly the bytes that follow the
/// frame, wherever the stream is cut into reads.
pub proof fn what_is_written_is_read(message: Seq<u8>, rest: Seq<u8>, chunks: Seq<Seq<u8>>)
    requires
        message.len() <= MAX_FRAME_LENGTH,
        chunks.flatten() == frame(message) + rest,
        forall|i: int| 0 <= i < chunks.len() ==> (#[trigger] chunks[i]).len() > 0,
    ensures
        message_and_rest(Seq::empty(), chunks) == Some((message, rest)),
{
    frame_is_read_to_its_end(message, rest, Seq::empty(), chunks);
}

/// Two messages one behind the other: the reader of the first passes the second
/// on untouched, so that who reads on from there, in whatever pieces, gets the
/// second and after it what follows.
pub proof fn second_message_passes_the_first_reader(
    first: Seq<u8>,
    second: Seq<u8>,
    rest: Seq<u8>,
    chunks: Seq<Seq<u8>>,
    passed_on: Seq<Seq<u8>>,
)
    requires
        first.len() <= MAX_FRAME_LENGTH,
        second.len() <= MAX_FRAME_LENGTH,
        chunks.flatten() == frame(first) + (frame(second) + rest),
        forall|i: int| 0 <= i < chunks.len() ==> (#[trigger] chunks[i]).len() > 0,
        forall|i: int| 0 <= i < passed_on.len() ==> (#[trigger] passed_on[i]).len() > 0,
        message_and_rest(Seq::empty(), chunks) matches Some((_, after)) ==> passed_on.flatten()
            == after,
    ensures
        message_and_rest(Seq::empty(), chunks) matches Some((message, _)) && message == first,
        message_and_rest(Seq::empty(), passed_on) == Some((second, rest)),
{
    what_is_written_is_read(first, frame(second) + rest, chunks);
    what_is_written_is_read(second, rest, passed_on);
}

/// The pieces in which a residual stream is handed on of which `ahead` had been
/// read ahead, and of which then `reads` are read.
pub open spec fn handed_on(ahead: Seq<u8>, reads: Seq<Seq<u8>>) -> Seq<Seq<u8>> {
    if ahead.len() > 0 {
        seq![ahead] + reads
    } else {
        reads
    }
}

/// A residual stream hands on every byte, in order: first those that had been
/// read ahead, then those that are read; and none of the pieces is empty.
pub proof fn residual_hands_everything_on(ahead: Seq<u8>, reads: Seq<Seq<u8>>)
    requires
        forall|i: int| 0 <= i < reads.len() ==> (#[trigger] reads[i]).len() > 0,
    ensures
        handed_on(ahead, reads).flatten() == ahead + reads.flatten(),
        forall|i: int|
            0 <= i < handed_on(ahead, reads).len() ==> (#[trigger] handed_on(
                ahead,
                reads,
            )[i]).len() > 0,
{
    if ahead.len() > 0 {
        assert((seq![ahead] + reads).drop_first() =~= reads);
    }
}

/// The chunks that a reader leaves unread are among those it was to read.
proof fn unread_chunks_are_left_as_they_are(so_far: Seq<u8>, chunks: Seq<Seq<u8>>)
    requires
        forall|i: int| 0 <= i < chunks.len() ==> (#[trigger] chunks[i]).len() > 0,
    ensures
        forked(so_far, chunks) matches Some((_, _, unread)) ==> forall|i: int|
            0 <= i < unread.len() ==> (#[trigger] unread[i]).len() > 0,
    decreases chunks.len(),
{
    if chunks.len() > 0 {
        unread_chunks_are_left_as_they_are(so_far + chunks.first(), chunks.drop_first());
    }
}

/// The reader of a message hands on, in pieces none of which is empty, exactly
/// what follows the message: what it had read ahead, and what it left unread.
pub proof fn reader_hands_on_what_follows(chunks: Seq<Seq<u8>>)
    requires
        forall|i: int| 0 <= i < chunks.len() ==> (#[trigger] chunks[i]).len() > 0,
    ensures
        forked(Seq::empty(), chunks) matches Some((message, ahead, unread)) ==> {
            &&& message_and_rest(Seq::empty(), chunks) == Some(
                (message, handed_on(ahead, unread).flatten()),
            )
            &&& forall|i: int|
                0 <= i < handed_on(ahead, unread).len() ==> (#[trigger] handed_on(
                    ahead,
                    unread,
                )[i]).len() > 0
        },
{
    unread_chunks_are_left_as_they_are(Seq::empty(), chunks);
    if let Some((_, ahead, unread)) = forked(Seq::empty(), chunks) {
        residual_hands_everything_on(ahead, unread);
    }
}

/// A reader that has part of a frame gets no message from another part.
proof fn part_of_a_frame_is_not_enough(
    message: Seq<u8>,
    so_far: Seq<u8>,
    chunks: Seq<Seq<u8>>,
)
    requires
        message.len() <= MAX_FRAME_LENGTH,
        (so_far + chunks.flatten()).is_prefix_of(frame(message)),
        (so_far + chunks.flatten()).len() < frame(message).len(),
    ensures
        message_and_rest(so_far, chunks) is None,
    decreases chunks.len(),
{
    if chunks.len() > 0 {
        let input = so_far + chunks.first();
        frame_announces_its_length(message, Seq::empty());
        assert(input =~= frame(message).take(input.len() as int));
        part_of_a_frame_is_not_enough(message, input, chunks.drop_first());
    }
}

/// From a stream that breaks off inside a frame no message is read.
pub proof fn cut_frame_gives_no_message(message: Seq<u8>, chunks: Seq<Seq<u8>>)
    requires
        message.len() <= MAX_FRAME_LENGTH,
        chunks.flatten().is_prefix_of(frame(message)),
        chunks.flatten().len() < frame(message).len(),
    ensures
        message_and_rest(Seq::empty(), chunks) is None,
{
    part_of_a_frame_is_not_enough(message, Seq::empty(), chunks);
}

/// Reading what is still being written: whoever has got a message although the
/// stream has come only in part has got the message that was written, and after
/// it the first part of what follows.
pub proof fn early_reader_gets_what_is_written(
    message: Seq<u8>,
    rest: Seq<u8>,
    chunks: Seq<Seq<u8>>,
)
    requires
        message.len() <= MAX_FRAME_LENGTH,
        chunks.flatten().is_prefix_of(frame(message) + rest),
        forall|i: int| 0 <= i < chunks.len() ==> (#[trigger] chunks[i]).len() > 0,
    ensures
        message_and_rest(Seq::empty(), chunks) matches Some((read, after)) ==> read == message
            && after.is_prefix_of(rest),
{
    let come = chunks.flatten();
    if come.len() < frame(message).len() {
        cut_frame_gives_no_message(message, chunks);
    } else {
        let after = come.skip(frame(message).len() as int);
        assert(come =~= frame(message) + after);
        what_is_written_is_read(message, after, chunks);
    }
}

/// A message is written if and only if it is not too long: four bytes that give
/// its length, the highest first, and then the message as it is.
pub proof fn message_is_written_behind_its_length(
    message: &[u8],
    res: Result<BytesMut, FrameError>,
)
    requires
        call_ensures(write_to_wire, (message,), res),
    ensures
        res is Ok <==> message@.len() <= 8388608,
        res matches Err(error) ==> error is TooLong,
        res matches Ok(bytes) ==> {
            let sent = contents(bytes);
            &&& sent.len() == message@.len() + 4
            &&& sent[0] * 16777216 + sent[1] * 65536 + sent[2] * 256 + sent[3] == message@.len()
            &&& sent.skip(4) == message@
        },
{
    if let Ok(bytes) = res {
        frame_announces_its_length(message@, Seq::empty());
    }
}

/// Who reads what was written gets the message, and the bytes behind it are
/// kept: if all that has come, in however many reads, starts with what was
/// written for a message, the read that completes it gives that message and
/// leaves exactly the rest.
pub proof fn reader_gets_the_message_and_keeps_the_rest(
    message: &[u8],
    bytes: BytesMut,
    reader: ForkReader,
    read: &[u8],
    res: Result<ForkStep, FrameError>,
    rest: Seq<u8>,
)
    requires
        call_ensures(write_to_wire, (message,), Ok(bytes)),
        call_ensures(ForkReader::fork_to_value, (reader, read), res),
        reader@ + read@ == contents(bytes) + rest,
    ensures
        res matches Ok(ForkStep::Value(got, residual)) && contents(got) == message@ && residual@
            == rest,
{
    frame_announces_its_length(message@, rest);
}

/// A reader goes by the length that the first four bytes give. As long as fewer
/// bytes have come it reads on, and forgets none of them; at the end of the
/// stream it has no message then. That is an error, but not if nothing or no
/// more than the length has come. A length that is too much is refused at once.
pub proof fn reader_goes_by_the_length(
    reader: ForkReader,
    read: &[u8],
    res: Result<ForkStep, FrameError>,
)
    requires
        call_ensures(ForkReader::fork_to_value, (reader, read), res),
    ensures
        ({
            let input = reader@ + read@;
            let length = input[0] * 16777216 + input[1] * 65536 + input[2] * 256 + input[3];
            let refused = input.len() >= 4 && length > 8388608;
            let complete = input.len() >= 4 && !refused && input.len() >= 4 + length;
            &&& res is Ok && res->Ok_0 is Value <==> complete
            &&& res is Err && res->Err_0 is TooLong <==> refused
            &&& !complete && !refused ==> {
                &&& read@.len() > 0 ==> (res matches Ok(ForkStep::ReadMore(next)) && next@ == input)
                &&& read@.len() == 0 && (input.len() == 0 || input.len() == 4) ==> (
                res matches Ok(ForkStep::Ended))
                &&& read@.len() == 0 && input.len() != 0 && input.len() != 4 ==> (
                res matches Err(error) && error is Truncated)
            }
        }),
{
}

/// It makes no difference in how many reads a stream comes: to read some and
/// then more is to read it all at once.
pub proof fn two_reads_are_as_good_as_one(
    reader: ForkReader,
    first: &[u8],
    next: ForkReader,
    second: &[u8],
    after_two: Result<ForkStep, FrameError>,
    both: &[u8],
    after_one: Result<ForkStep, FrameError>,
)
    requires
        call_ensures(
            ForkReader::fork_to_value,
            (reader, first),
            Ok::<ForkStep, FrameError>(ForkStep::ReadMore(next)),
        ),
        call_ensures(ForkReader::fork_to_value, (next, second), after_two),
        both@ == first@ + second@,
        second@.len() > 0,
        call_ensures(ForkReader::fork_to_value, (reader, both), after_one),
    ensures
        match (after_two, after_one) {
            (Ok(ForkStep::ReadMore(two)), Ok(ForkStep::ReadMore(one))) => two@ == one@,
            (
                Ok(ForkStep::Value(two, two_residual)),
                Ok(ForkStep::Value(one, one_residual)),
            ) => contents(two) == contents(one) && two_residual@ == one_residual@,
            (Err(two), Err(one)) => two == one,
            _ => false,
        },
{
}

/// A new reader has read nothing, and neither has a new residual stream.
pub proof fn new_readers_have_read_nothing(reader: ForkReader, residual: Residual)
    requires
        call_ensures(ForkReader::new, (), reader),
        call_ensures(Residual::new, (), residual),
    ensures
        reader@.len() == 0,
        residual@.len() == 0,
{
}

/// What was read ahead is handed out once, all of it, and nothing is handed out
/// only if there is nothing.
pub proof fn read_ahead_is_handed_out_once(
    residual: &mut Residual,
    bytes: Option<BytesMut>,
)
    requires
        call_ensures(Residual::read_ahead, (residual,), bytes),
    ensures
        final(residual)@.len() == 0,
        bytes matches Some(bytes) ==> contents(bytes).len() > 0 && contents(bytes) == old(
            residual,
        )@,
        bytes is None ==> old(residual)@.len() == 0,
{
}

/// What is read after that is handed out as it is, whatever its length, and the
/// stream has ended exactly if nothing was read.
pub proof fn what_is_received_is_handed_out(
    residual: &mut Residual,
    read: &[u8],
    bytes: Option<BytesMut>,
)
    requires
        old(residual)@.len() == 0,
        call_ensures(Residual::received, (residual, read), bytes),
    ensures
        final(residual)@.len() == 0,
        bytes matches Some(bytes) ==> contents(bytes) == read@,
        bytes is None <==> read@.len() == 0,
{
}

} // verus!
