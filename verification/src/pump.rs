//! Copies one direction of a connection: decides, after every read and write,
//! what is to be done next.

use vstd::prelude::*;
use bytes::BytesMut;
use crate::buffer::{
    advance, buffer_from, chunk, contents, frame, has_remaining, MAX_FRAME_LENGTH,
};
use crate::framing::{
    forked, handed_on, message_and_rest, reader_hands_on_what_follows, what_is_written_is_read,
};

verus! {

/// How much a reader is asked for at once, when it is read into a buffer of
/// fixed size.
pub const PROXY_BUFFER_SIZE: usize = 1048576;

/// What is to be done next.
#[derive(Debug)]
pub enum PumpAction<E> {
    /// Read from the source.
    Read,
    /// Write to the destination, from the bytes that are pending.
    Write,
    /// Shut the destination down.
    Shutdown,
    /// Nothing more: the copy is over, with this result.
    Finish(Result<(), E>),
}

/// What has been done.
pub enum PumpEvent<E> {
    /// The source was read: some bytes, `None` at its end, or an error.
    Read(Result<Option<Seq<u8>>, E>),
    /// The destination was written to: how many of the pending bytes it took,
    /// or an error.
    Wrote(Result<nat, E>),
    /// The destination was shut down.
    ShutDown(Result<(), E>),
}

/// What to do while `pending` is to be written.
pub open spec fn write_or_read<E>(pending: Seq<u8>) -> PumpAction<E> {
    if pending.len() > 0 {
        PumpAction::Write
    } else {
        PumpAction::Read
    }
}

/// What is pending after `event`, when `pending` was before.
pub open spec fn pending_after<E>(pending: Seq<u8>, event: PumpEvent<E>) -> Seq<u8> {
    match event {
        PumpEvent::Read(Ok(Some(bytes))) => bytes,
        PumpEvent::Wrote(Ok(count)) => pending.skip(count as int),
        _ => pending,
    }
}

/// What to do after `event`, when `pending` was pending before. The end of the
/// source is passed on; a destination that takes nothing more ends the copy.
pub open spec fn action_after<E>(pending: Seq<u8>, event: PumpEvent<E>) -> PumpAction<E> {
    match event {
        PumpEvent::Read(Err(error)) => PumpAction::Finish(Err(error)),
        PumpEvent::Read(Ok(None)) => PumpAction::Shutdown,
        PumpEvent::Read(Ok(Some(bytes))) => write_or_read(bytes),
        PumpEvent::Wrote(Err(error)) => PumpAction::Finish(Err(error)),
        PumpEvent::Wrote(Ok(count)) => if count == 0 {
            PumpAction::Finish(Ok(()))
        } else {
            write_or_read(pending.skip(count as int))
        },
        PumpEvent::ShutDown(result) => PumpAction::Finish(result),
    }
}

/// The copy of one direction.
#[derive(Debug)]
pub struct Pump {
    pending: BytesMut,
}

impl View for Pump {
    type V = Seq<u8>;

    /// The bytes that have been read and not yet written.
    closed spec fn view(&self) -> Seq<u8> {
        contents(self.pending)
    }
}

impl Pump {
    /// A copy of which nothing has been done.
    pub fn new() -> (pump: Self)
        ensures
            pump@ == Seq::<u8>::empty(),
    {
        Pump { pending: buffer_from(&[]) }
    }

    /// What to do first.
    pub fn start<E>(&self) -> (action: PumpAction<E>)
        ensures
            action == action_after_all::<E>(Seq::empty()),
    {
        PumpAction::Read
    }

    /// Goes on after the source gave a frame, which may be empty, came to its
    /// end, or failed.
    pub fn proxy_residual<E>(&mut self, frame: Result<Option<BytesMut>, E>) -> (action: PumpAction<
        E,
    >)
        requires
            old(self)@.len() == 0,
        ensures
            ({
                let event = match frame {
                    Ok(Some(frame)) => PumpEvent::Read(Ok(Some(contents(frame)))),
                    Ok(None) => PumpEvent::Read(Ok(None)),
                    Err(error) => PumpEvent::Read(Err(error)),
                };
                &&& final(self)@ == pending_after(old(self)@, event)
                &&& action == action_after(old(self)@, event)
            }),
    {
        match frame {
            Err(error) => PumpAction::Finish(Err(error)),
            Ok(None) => PumpAction::Shutdown,
            Ok(Some(frame)) => {
                self.pending = frame;
                self.next()
            },
        }
    }

    /// Goes on after the source was read into a buffer: it gave the bytes
    /// `read`, which are empty at its end, or failed.
    pub fn proxy<E>(&mut self, read: Result<&[u8], E>) -> (action: PumpAction<E>)
        requires
            old(self)@.len() == 0,
        ensures
            ({
                let event = match read {
                    Ok(bytes) => if bytes@.len() > 0 {
                        PumpEvent::Read(Ok(Some(bytes@)))
                    } else {
                        PumpEvent::Read(Ok(None))
                    },
                    Err(error) => PumpEvent::Read(Err(error)),
                };
                &&& final(self)@ == pending_after(old(self)@, event)
                &&& action == action_after(old(self)@, event)
            }),
    {
        match read {
            Err(error) => PumpAction::Finish(Err(error)),
            Ok(bytes) => if bytes.len() == 0 {
                PumpAction::Shutdown
            } else {
                self.pending = buffer_from(bytes);
                self.next()
            },
        }
    }

    /// The bytes to be written.
    pub fn to_write(&self) -> (bytes: &[u8])
        ensures
            bytes@ == self@,
    {
        chunk(&self.pending)
    }

    /// Goes on after a write of the pending bytes: the destination took the
    /// first `written` of them, or failed.
    pub fn wrote<E>(&mut self, written: Result<usize, E>) -> (action: PumpAction<E>)
        requires
            written matches Ok(count) ==> count <= old(self)@.len(),
        ensures
            ({
                let event = match written {
                    Ok(count) => PumpEvent::Wrote(Ok(count as nat)),
                    Err(error) => PumpEvent::Wrote(Err(error)),
                };
                &&& final(self)@ == pending_after(old(self)@, event)
                &&& action == action_after(old(self)@, event)
            }),
    {
        match written {
            Err(error) => PumpAction::Finish(Err(error)),
            Ok(count) => if count == 0 {
                PumpAction::Finish(Ok(()))
            } else {
                advance(&mut self.pending, count);
                self.next()
            },
        }
    }

    /// Goes on after the destination was shut down.
    pub fn shut_down<E>(&self, result: Result<(), E>) -> (action: PumpAction<E>)
        ensures
            action == action_after(self@, PumpEvent::ShutDown(result)),
    {
        PumpAction::Finish(result)
    }

    fn next<E>(&self) -> (action: PumpAction<E>)
        ensures
            action == write_or_read::<E>(self@),
    {
        if has_remaining(&self.pending) {
            PumpAction::Write
        } else {
            PumpAction::Read
        }
    }
}

/// What is pending after all of `events`.
pub open spec fn pending_after_all<E>(events: Seq<PumpEvent<E>>) -> Seq<u8>
    decreases events.len(),
{
    if events.len() == 0 {
        seq![]
    } else {
        pending_after(pending_after_all(events.drop_last()), events.last())
    }
}

/// What to do after all of `events`.
pub open spec fn action_after_all<E>(events: Seq<PumpEvent<E>>) -> PumpAction<E> {
    if events.len() == 0 {
        PumpAction::Read
    } else {
        action_after(pending_after_all(events.drop_last()), events.last())
    }
}

/// Whether `event` is the doing of `action`, while `pending` was pending.
pub open spec fn answers<E>(event: PumpEvent<E>, action: PumpAction<E>, pending: Seq<u8>) -> bool {
    match event {
        PumpEvent::Read(_) => action is Read,
        PumpEvent::Wrote(Ok(count)) => action is Write && count <= pending.len(),
        PumpEvent::Wrote(Err(_)) => action is Write,
        PumpEvent::ShutDown(_) => action is Shutdown,
    }
}

/// Whether in `events` each time that was done which was to be done.
pub open spec fn follows_orders<E>(events: Seq<PumpEvent<E>>) -> bool
    decreases events.len(),
{
    events.len() > 0 ==> {
        &&& follows_orders(events.drop_last())
        &&& answers(
            events.last(),
            action_after_all(events.drop_last()),
            pending_after_all(events.drop_last()),
        )
    }
}

/// All that was read, in order.
pub open spec fn bytes_read<E>(events: Seq<PumpEvent<E>>) -> Seq<u8>
    decreases events.len(),
{
    if events.len() == 0 {
        seq![]
    } else {
        let earlier = bytes_read(events.drop_last());
        match events.last() {
            PumpEvent::Read(Ok(Some(bytes))) => earlier + bytes,
            _ => earlier,
        }
    }
}

/// The pieces in which it was read.
pub open spec fn frames_read<E>(events: Seq<PumpEvent<E>>) -> Seq<Seq<u8>>
    decreases events.len(),
{
    if events.len() == 0 {
        seq![]
    } else {
        let earlier = frames_read(events.drop_last());
        match events.last() {
            PumpEvent::Read(Ok(Some(bytes))) => earlier.push(bytes),
            _ => earlier,
        }
    }
}

/// All that was written, in order.
pub open spec fn bytes_written<E>(events: Seq<PumpEvent<E>>) -> Seq<u8>
    decreases events.len(),
{
    if events.len() == 0 {
        seq![]
    } else {
        let earlier = bytes_written(events.drop_last());
        match events.last() {
            PumpEvent::Wrote(Ok(count)) => earlier + pending_after_all(events.drop_last()).take(
                count as int,
            ),
            _ => earlier,
        }
    }
}

/// The destination gets the bytes of the source, in order, none left out and
/// none twice. What it has not got is pending; and nothing is pending whenever
/// the source is to be read again or the destination is to be shut down.
pub proof fn bytes_are_passed_on_in_order<E>(events: Seq<PumpEvent<E>>)
    requires
        follows_orders(events),
    ensures
        bytes_read(events) == bytes_written(events) + pending_after_all(events),
        action_after_all(events) is Read ==> bytes_written(events) == bytes_read(events),
        action_after_all(events) is Shutdown ==> bytes_written(events) == bytes_read(events),
        action_after_all(events) is Write ==> pending_after_all(events).len() > 0,
        events.len() > 0 && events.last() is ShutDown ==> bytes_written(events) == bytes_read(
            events,
        ),
    decreases events.len(),
{
    if events.len() > 0 {
        bytes_are_passed_on_in_order(events.drop_last());
    }
}

/// What was read is made up of the pieces in which it was read.
pub proof fn frames_make_up_what_is_read<E>(events: Seq<PumpEvent<E>>)
    ensures
        bytes_read(events) == frames_read(events).flatten(),
    decreases events.len(),
{
    if events.len() > 0 {
        frames_make_up_what_is_read(events.drop_last());
        if let PumpEvent::Read(Ok(Some(bytes))) = events.last() {
            frames_read(events.drop_last()).lemma_flatten_push(bytes);
        }
    }
}

/// The destination is shut down only after the source has come to its end, only
/// once, and nothing is done after that.
pub proof fn shutdown_comes_last<E>(events: Seq<PumpEvent<E>>, i: int)
    requires
        follows_orders(events),
        0 <= i < events.len(),
        events[i] is ShutDown,
    ensures
        i == events.len() - 1,
        i > 0 && events[i - 1] == PumpEvent::<E>::Read(Ok(None)),
    decreases events.len(),
{
    if i < events.len() - 1 {
        shutdown_comes_last(events.drop_last(), i);
    }
}

/// Whether `events` are a copy that has come to its end.
pub open spec fn whole_copy<E>(events: Seq<PumpEvent<E>>) -> bool {
    follows_orders(events) && events.len() > 0 && events.last() is ShutDown
}

/// Whether `events` are a copy, made to its end, of the stream that is read as
/// `chunks`, from behind its first message: what the reader of the message
/// hands on is what the copy reads.
pub open spec fn copies_what_follows<E>(chunks: Seq<Seq<u8>>, events: Seq<PumpEvent<E>>) -> bool {
    &&& whole_copy(events)
    &&& forked(Seq::empty(), chunks) matches Some((_, ahead, unread)) ==> frames_read(events)
        == handed_on(ahead, unread)
}

/// From one end of a connection to the other: someone sends `message` in a
/// frame and then `data`; the stream is cut into `chunks`; the reader of the
/// message hands what it has read ahead, and then what it reads, to a copy,
/// which goes on to the end. Then the destination of the copy has got `data`,
/// no more and no less.
pub proof fn data_arrives_behind_its_marker<E>(
    message: Seq<u8>,
    data: Seq<u8>,
    chunks: Seq<Seq<u8>>,
    events: Seq<PumpEvent<E>>,
)
    requires
        message.len() <= MAX_FRAME_LENGTH,
        chunks.flatten() == frame(message) + data,
        forall|i: int| 0 <= i < chunks.len() ==> (#[trigger] chunks[i]).len() > 0,
        copies_what_follows(chunks, events),
    ensures
        message_and_rest(Seq::empty(), chunks) == Some((message, data)),
        bytes_written(events) == data,
{
    what_is_written_is_read(message, data, chunks);
    reader_hands_on_what_follows(chunks);
    frames_make_up_what_is_read(events);
    bytes_are_passed_on_in_order(events);
}

/// When a copy goes on, and when it is over. It ends as a success only after
/// the destination was shut down, or took nothing of what it was offered; with
/// an error only after that error came. The destination is shut down after the
/// source's end and only then. After everything else the copy goes on: what is
/// pending is written, and when nothing is pending the source is read again.
pub proof fn copy_goes_on_until_it_is_over<E>(events: Seq<PumpEvent<E>>, error: E)
    requires
        follows_orders(events),
        events.len() > 0,
    ensures
        ({
            let action = action_after_all(events);
            let last = events.last();
            let progress = match last {
                PumpEvent::Read(Ok(Some(_))) => true,
                PumpEvent::Wrote(Ok(count)) => count > 0,
                _ => false,
            };
            &&& action == PumpAction::<E>::Finish(Ok(())) <==> (last == PumpEvent::<E>::ShutDown(
                Ok(()),
            ) || last == PumpEvent::<E>::Wrote(Ok(0)))
            &&& action == PumpAction::<E>::Finish(Err(error)) <==> (last == PumpEvent::<E>::Read(
                Err(error),
            ) || last == PumpEvent::<E>::Wrote(Err(error)) || last == PumpEvent::<E>::ShutDown(
                Err(error),
            ))
            &&& action is Shutdown <==> last == PumpEvent::<E>::Read(Ok(None))
            &&& action is Write <==> progress && pending_after_all(events).len() > 0
            &&& action is Read <==> progress && pending_after_all(events).len() == 0
        }),
{
}

/// A copy that ends as a success, of which every write has taken something, has
/// written all that was read, up to the source's end, and has shut the
/// destination down.
pub proof fn successful_copy_is_whole<E>(events: Seq<PumpEvent<E>>)
    requires
        follows_orders(events),
        action_after_all(events) == PumpAction::<E>::Finish(Ok(())),
        events.last() != PumpEvent::<E>::Wrote(Ok(0)),
    ensures
        events.len() >= 2,
        events[events.len() - 2] == PumpEvent::<E>::Read(Ok(None)),
        events.last() == PumpEvent::<E>::ShutDown(Ok(())),
        bytes_written(events) == bytes_read(events),
{
    bytes_are_passed_on_in_order(events);
    shutdown_comes_last(events, events.len() - 1);
}

/// A new copy has nothing to write, and begins with a read.
pub proof fn new_copy_reads<E>(pump: Pump, action: PumpAction<E>)
    requires
        call_ensures(Pump::new, (), pump),
        call_ensures(Pump::start::<E>, (&pump,), action),
    ensures
        pump@.len() == 0,
        action is Read,
{
}

/// What is read is offered to the destination as it is. Only nothing at all is
/// not written; that is the end of a source that is read into a buffer, but not
/// of one that gives frames.
pub proof fn what_is_read_is_offered<E>(
    pump: &mut Pump,
    frame: BytesMut,
    action: PumpAction<E>,
    offered: &[u8],
)
    requires
        old(pump)@.len() == 0,
        call_ensures(Pump::proxy_residual::<E>, (pump, Ok::<_, E>(Some(frame))), action),
        call_ensures(Pump::to_write, (&*final(pump),), offered),
    ensures
        offered@ == contents(frame),
        contents(frame).len() > 0 ==> action is Write,
        contents(frame).len() == 0 ==> action is Read,
{
}

/// The same of a source that is read into a buffer.
pub proof fn what_is_read_into_a_buffer_is_offered<E>(
    pump: &mut Pump,
    read: &[u8],
    action: PumpAction<E>,
    offered: &[u8],
)
    requires
        old(pump)@.len() == 0,
        call_ensures(Pump::proxy::<E>, (pump, Ok::<_, E>(read)), action),
        call_ensures(Pump::to_write, (&*final(pump),), offered),
    ensures
        offered@ == read@,
        read@.len() > 0 ==> action is Write,
        read@.len() == 0 ==> action is Shutdown,
{
}

/// The end of a source that gives frames is passed on.
pub proof fn end_of_source_is_passed_on<E>(pump: &mut Pump, action: PumpAction<E>)
    requires
        old(pump)@.len() == 0,
        call_ensures(Pump::proxy_residual::<E>, (pump, Ok::<_, E>(None)), action),
    ensures
        action is Shutdown,
        final(pump)@.len() == 0,
{
}

/// An error of the source ends the copy with that error, whichever way the
/// source is read.
pub proof fn error_of_source_ends_the_copy<E>(
    pump: &mut Pump,
    error: E,
    after_frame: PumpAction<E>,
    after_buffer: PumpAction<E>,
)
    requires
        old(pump)@.len() == 0,
    ensures
        call_ensures(Pump::proxy_residual::<E>, (pump, Err::<Option<BytesMut>, E>(error)), after_frame)
            ==> after_frame == PumpAction::<E>::Finish(Err(error)),
        call_ensures(Pump::proxy::<E>, (pump, Err::<&[u8], E>(error)), after_buffer) ==> after_buffer
            == PumpAction::<E>::Finish(Err(error)),
{
}

/// What a write did not take is offered again, unchanged: what was offered is
/// what was taken and then what is offered next. A write that took something,
/// of whatever size, never ends the copy; one that took nothing does.
pub proof fn what_is_not_taken_is_offered_again<E>(
    pump: &mut Pump,
    offered: &[u8],
    taken: usize,
    action: PumpAction<E>,
    offered_next: &[u8],
)
    requires
        call_ensures(Pump::to_write, (&*old(pump),), offered),
        taken <= offered@.len(),
        call_ensures(Pump::wrote::<E>, (pump, Ok::<usize, E>(taken)), action),
        call_ensures(Pump::to_write, (&*final(pump),), offered_next),
    ensures
        offered@ == offered@.take(taken as int) + offered_next@,
        taken == 0 ==> action == PumpAction::<E>::Finish(Ok(())),
        taken > 0 && taken < offered@.len() ==> action is Write,
        taken > 0 && taken == offered@.len() ==> action is Read,
{
}

/// A write that failed ends the copy with its error, and so does a shutdown;
/// one that succeeded ends it as a success.
pub proof fn error_of_destination_ends_the_copy<E>(
    pump: &mut Pump,
    error: E,
    after_write: PumpAction<E>,
    result: Result<(), E>,
    after_shutdown: PumpAction<E>,
)
    ensures
        call_ensures(Pump::wrote::<E>, (pump, Err::<usize, E>(error)), after_write) ==> after_write
            == PumpAction::<E>::Finish(Err(error)),
        call_ensures(Pump::shut_down::<E>, (&*old(pump), result), after_shutdown) ==> after_shutdown
            == PumpAction::<E>::Finish(result),
{
}

} // verus!
