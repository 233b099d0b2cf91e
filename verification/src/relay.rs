//! The whole way of the bytes: from the user of the client to the process that
//! the server runs, and back, past the daemon in between.

use vstd::prelude::*;
use crate::buffer::{frame, MAX_FRAME_LENGTH};
use crate::framing::{
    early_reader_gets_what_is_written, forked, handed_on, reader_hands_on_what_follows,
    second_message_passes_the_first_reader,
};
use crate::listener::{crossed_routes, Pair};
use crate::pump::{
    bytes_are_passed_on_in_order, bytes_read, bytes_written, copies_what_follows,
    data_arrives_behind_its_marker, follows_orders, frames_make_up_what_is_read, frames_read,
    whole_copy, PumpEvent,
};
use crate::streams::{
    controlled_over, provided_over, routes_between, ControlledStreams, ProvidedStreams,
    ProxyStreams, Route, StreamDir,
};

verus! {

/// What goes over connections whose reading halves are of the type `R` and
/// whose writing halves are of the type `W`.
#[verifier::reject_recursive_types(R)]
#[verifier::reject_recursive_types(W)]
#[verifier::reject_recursive_types(E)]
pub struct Traffic<R, W, E> {
    /// All that was written to a half.
    pub sent: spec_fn(W) -> Seq<u8>,
    /// What was read from a half, in the pieces in which it came.
    pub reads: spec_fn(R) -> Seq<Seq<u8>>,
    /// What was done by the copy on a route.
    pub copied: spec_fn(Route<R, W>) -> Seq<PumpEvent<E>>,
}

impl<R, W, E> Traffic<R, W, E> {
    /// Whether `to` is the far end of `from`: what was written to the one is
    /// read from the other, in order, in pieces none of which is empty. Some of
    /// it may be under way.
    pub open spec fn carries(self, from: W, to: R) -> bool {
        &&& (self.reads)(to).flatten().is_prefix_of((self.sent)(from))
        &&& forall|i: int|
            0 <= i < (self.reads)(to).len() ==> (#[trigger] (self.reads)(to)[i]).len() > 0
    }

    /// Whether nothing is under way any more.
    pub open spec fn has_carried(self, from: W, to: R) -> bool {
        self.carries(from, to) && (self.reads)(to).flatten() == (self.sent)(from)
    }

    /// The first message that came, if it came in full.
    pub open spec fn first_message(self, from: R) -> Option<Seq<u8>> {
        match forked(Seq::empty(), (self.reads)(from)) {
            None => None,
            Some((message, _, _)) => Some(message),
        }
    }

    /// Whether on the route `copy` a message was read, and what the reader of
    /// it hands on is being copied, and nothing else.
    pub open spec fn relays(self, copy: Route<R, W>) -> bool {
        &&& follows_orders((self.copied)(copy))
        &&& forked(Seq::empty(), (self.reads)(copy.from)) matches Some((_, ahead, unread))
            && frames_read((self.copied)(copy)).is_prefix_of(handed_on(ahead, unread))
        &&& (self.sent)(copy.to) == bytes_written((self.copied)(copy))
    }

    /// Whether that copy has come to its end.
    pub open spec fn has_relayed(self, copy: Route<R, W>) -> bool {
        &&& self.relays(copy)
        &&& copies_what_follows((self.reads)(copy.from), (self.copied)(copy))
    }

    /// Whether all that is read from the start of the route `copy` has been
    /// copied, to its end.
    pub open spec fn has_passed_on(self, copy: Route<R, W>) -> bool {
        &&& whole_copy((self.copied)(copy))
        &&& frames_read((self.copied)(copy)) == handed_on(Seq::empty(), (self.reads)(copy.from))
    }
}

/// Whether the daemon has paired these two of its connections, whichever came
/// first.
pub open spec fn paired<S>(pair: Pair<S>, one: S, other: S) -> bool {
    ||| pair.incoming == one && pair.complement == other
    ||| pair.incoming == other && pair.complement == one
}

/// How the server announces itself and the stream `dir` on a connection, before
/// it sends `data`: who it is, and which stream.
pub open spec fn announced(
    descriptor: Seq<u8>,
    mark: spec_fn(StreamDir) -> Seq<u8>,
    dir: StreamDir,
    data: Seq<u8>,
) -> Seq<u8> {
    frame(descriptor) + (frame(mark(dir)) + data)
}

/// Whether `descriptor` and the marks fit into frames, and the marks can be
/// told apart.
pub open spec fn readable(descriptor: Seq<u8>, mark: spec_fn(StreamDir) -> Seq<u8>) -> bool {
    &&& descriptor.len() <= MAX_FRAME_LENGTH
    &&& forall|dir: StreamDir| (#[trigger] mark(dir)).len() <= MAX_FRAME_LENGTH
    &&& forall|one: StreamDir, other: StreamDir| #[trigger]
        mark(one) == #[trigger] mark(other) ==> one == other
}

/// Of a part of a stream of pieces, the bytes are a part of the bytes.
proof fn fewer_pieces_have_fewer_bytes(some: Seq<Seq<u8>>, all: Seq<Seq<u8>>)
    requires
        some.is_prefix_of(all),
    ensures
        some.flatten().is_prefix_of(all.flatten()),
{
    let rest = all.skip(some.len() as int);
    assert(all =~= some + rest);
    vstd::seq_lib::lemma_flatten_concat(some, rest);
}

/// The first part of the first part is the first part of the whole.
proof fn part_of_a_part(part: Seq<u8>, whole: Seq<u8>, more: Seq<u8>)
    requires
        part.is_prefix_of(whole),
        whole.is_prefix_of(more),
    ensures
        part.is_prefix_of(more),
{
}

/// The daemon takes the descriptor and passes on what follows: what it has
/// written, at any time, is the first part of what was sent behind it.
pub proof fn daemon_passes_on_what_follows<R, W, E>(
    traffic: Traffic<R, W, E>,
    from: W,
    copy: Route<R, W>,
    descriptor: Seq<u8>,
    rest: Seq<u8>,
)
    requires
        descriptor.len() <= MAX_FRAME_LENGTH,
        (traffic.sent)(from) == frame(descriptor) + rest,
        traffic.carries(from, copy.from),
        traffic.relays(copy),
    ensures
        traffic.first_message(copy.from) == Some(descriptor),
        (traffic.sent)(copy.to).is_prefix_of(rest),
{
    let events = (traffic.copied)(copy);
    let chunks = (traffic.reads)(copy.from);
    early_reader_gets_what_is_written(descriptor, rest, chunks);
    reader_hands_on_what_follows(chunks);
    if let Some((_, ahead, unread)) = forked(Seq::empty(), chunks) {
        let after = handed_on(ahead, unread).flatten();
        fewer_pieces_have_fewer_bytes(frames_read(events), handed_on(ahead, unread));
        frames_make_up_what_is_read(events);
        bytes_are_passed_on_in_order(events);
        part_of_a_part(bytes_written(events), bytes_read(events), after);
        part_of_a_part(bytes_written(events), after, rest);
    }
}

/// The mark says which stream it is. The server has announced the stream `dir`
/// on a connection, and the daemon has paired that with a connection of the
/// client. If the client has read the mark of the stream `place` from it, then
/// `place` is `dir`, although the client had no say in which connection of the
/// server its own is paired with. This holds at any time, whatever has followed
/// or is to follow.
pub proof fn mark_says_which_stream<R, W, E>(
    traffic: Traffic<R, W, E>,
    descriptor: Seq<u8>,
    mark: spec_fn(StreamDir) -> Seq<u8>,
    dir: StreamDir,
    data: Seq<u8>,
    at_server: (R, W),
    pair: Pair<(R, W)>,
    from_server: (R, W),
    to_client: (R, W),
    at_client: (R, W),
    place: StreamDir,
)
    requires
        readable(descriptor, mark),
        (traffic.sent)(at_server.1) == announced(descriptor, mark, dir, data),
        traffic.carries(at_server.1, from_server.0),
        paired(pair, from_server, to_client),
        traffic.relays(crossed_routes(pair).0),
        traffic.relays(crossed_routes(pair).1),
        traffic.carries(to_client.1, at_client.0),
        traffic.first_message(at_client.0) == Some(mark(place)),
    ensures
        place == dir,
{
    let copy = Route { from: from_server.0, to: to_client.1 };
    let rest = frame(mark(dir)) + data;
    daemon_passes_on_what_follows(traffic, at_server.1, copy, descriptor, rest);
    let chunks = (traffic.reads)(at_client.0);
    part_of_a_part(chunks.flatten(), (traffic.sent)(to_client.1), rest);
    early_reader_gets_what_is_written(mark(dir), data, chunks);
}

/// A copy of a plain stream writes all that was read of it.
proof fn plain_stream_is_passed_on<R, W, E>(traffic: Traffic<R, W, E>, copy: Route<R, W>)
    requires
        traffic.has_passed_on(copy),
    ensures
        bytes_written((traffic.copied)(copy)) == (traffic.reads)(copy.from).flatten(),
{
    frames_make_up_what_is_read((traffic.copied)(copy));
    bytes_are_passed_on_in_order((traffic.copied)(copy));
}

/// Output reaches the user. The server copies an output of the process to the
/// connection that it has announced for the stream `dir`; the daemon takes the
/// descriptor and copies the rest to the connection of the client with which it
/// has paired it; the client takes the mark, which is that of `place`, has the
/// connection in the place for `place`, and copies the rest to its user. When
/// all copies have come to their ends, `place` is `dir`, and the user has got
/// all that the process has put out there: every byte, in order, and nothing
/// else.
pub proof fn output_reaches_the_user<R, W, E>(
    traffic: Traffic<R, W, E>,
    descriptor: Seq<u8>,
    mark: spec_fn(StreamDir) -> Seq<u8>,
    user: ProvidedStreams<R, W>,
    process: ControlledStreams<R, W>,
    at_server: ProxyStreams<(R, W)>,
    at_client: ProxyStreams<(R, W)>,
    dir: StreamDir,
    place: StreamDir,
    pair: Pair<(R, W)>,
    from_server: (R, W),
    to_client: (R, W),
)
    requires
        readable(descriptor, mark),
        at_server.complete(),
        at_client.complete(),
        dir != StreamDir::Stdin,
        ({
            let server = routes_between(provided_over(at_server), process).of(dir);
            let client = routes_between(user, controlled_over(at_client)).of(place);
            &&& traffic.has_passed_on(server)
            &&& (traffic.sent)(at_server@[dir].1) == announced(
                descriptor,
                mark,
                dir,
                bytes_written((traffic.copied)(server)),
            )
            &&& traffic.has_carried(at_server@[dir].1, from_server.0)
            &&& paired(pair, from_server, to_client)
            &&& traffic.relays(crossed_routes(pair).0)
            &&& traffic.relays(crossed_routes(pair).1)
            &&& traffic.has_relayed(Route { from: from_server.0, to: to_client.1 })
            &&& traffic.has_carried(to_client.1, at_client@[place].0)
            &&& traffic.first_message(at_client@[place].0) == Some(mark(place))
            &&& traffic.has_relayed(client)
        }),
    ensures
        place == dir,
        (traffic.sent)(routes_between(user, controlled_over(at_client)).of(dir).to) == (
        traffic.reads)(routes_between(provided_over(at_server), process).of(dir).from).flatten(),
{
    let server = routes_between(provided_over(at_server), process).of(dir);
    let client = routes_between(user, controlled_over(at_client)).of(place);
    let copy = Route { from: from_server.0, to: to_client.1 };
    let output = bytes_written((traffic.copied)(server));
    mark_says_which_stream(
        traffic,
        descriptor,
        mark,
        dir,
        output,
        at_server@[dir],
        pair,
        from_server,
        to_client,
        at_client@[place],
        place,
    );
    plain_stream_is_passed_on(traffic, server);
    data_arrives_behind_its_marker(
        descriptor,
        frame(mark(dir)) + output,
        (traffic.reads)(copy.from),
        (traffic.copied)(copy),
    );
    second_message_passes_the_first_reader(
        descriptor,
        mark(dir),
        output,
        (traffic.reads)(copy.from),
        (traffic.reads)(client.from),
    );
    data_arrives_behind_its_marker(
        mark(dir),
        output,
        (traffic.reads)(client.from),
        (traffic.copied)(client),
    );
}

/// Input reaches the process. The client copies the input of its user to the
/// connection from which it has read the mark of the input; the daemon takes
/// the client's descriptor and copies the rest to the connection of the server
/// with which it has paired it, which the server has announced for the stream
/// `dir`. When all copies have come to their ends, `dir` is the input, and the
/// process has got all that the user has put in: every byte, in order, and
/// nothing else.
pub proof fn input_reaches_the_process<R, W, E>(
    traffic: Traffic<R, W, E>,
    client_descriptor: Seq<u8>,
    server_descriptor: Seq<u8>,
    mark: spec_fn(StreamDir) -> Seq<u8>,
    data: Seq<u8>,
    user: ProvidedStreams<R, W>,
    process: ControlledStreams<R, W>,
    at_server: ProxyStreams<(R, W)>,
    at_client: ProxyStreams<(R, W)>,
    dir: StreamDir,
    pair: Pair<(R, W)>,
    to_server: (R, W),
    from_client: (R, W),
)
    requires
        readable(server_descriptor, mark),
        client_descriptor.len() <= MAX_FRAME_LENGTH,
        at_server.complete(),
        at_client.complete(),
        ({
            let client = routes_between(user, controlled_over(at_client)).stdin;
            let server = routes_between(provided_over(at_server), process).stdin;
            &&& (traffic.sent)(at_server@[dir].1) == announced(server_descriptor, mark, dir, data)
            &&& traffic.carries(at_server@[dir].1, to_server.0)
            &&& traffic.carries(from_client.1, at_client@[StreamDir::Stdin].0)
            &&& traffic.first_message(at_client@[StreamDir::Stdin].0) == Some(
                mark(StreamDir::Stdin),
            )
            &&& traffic.has_passed_on(client)
            &&& (traffic.sent)(at_client@[StreamDir::Stdin].1) == frame(client_descriptor)
                + bytes_written((traffic.copied)(client))
            &&& traffic.has_carried(at_client@[StreamDir::Stdin].1, from_client.0)
            &&& paired(pair, to_server, from_client)
            &&& traffic.relays(crossed_routes(pair).0)
            &&& traffic.relays(crossed_routes(pair).1)
            &&& traffic.has_relayed(Route { from: from_client.0, to: to_server.1 })
            &&& traffic.has_carried(to_server.1, at_server@[dir].0)
            &&& traffic.has_passed_on(server)
        }),
    ensures
        dir == StreamDir::Stdin,
        bytes_written((traffic.copied)(routes_between(provided_over(at_server), process).stdin))
            == (traffic.reads)(user.stdin).flatten(),
{
    let client = routes_between(user, controlled_over(at_client)).stdin;
    let server = routes_between(provided_over(at_server), process).stdin;
    let copy = Route { from: from_client.0, to: to_server.1 };
    mark_says_which_stream(
        traffic,
        server_descriptor,
        mark,
        dir,
        data,
        at_server@[dir],
        pair,
        to_server,
        from_client,
        at_client@[StreamDir::Stdin],
        StreamDir::Stdin,
    );
    plain_stream_is_passed_on(traffic, client);
    data_arrives_behind_its_marker(
        client_descriptor,
        bytes_written((traffic.copied)(client)),
        (traffic.reads)(copy.from),
        (traffic.copied)(copy),
    );
    plain_stream_is_passed_on(traffic, server);
}

} // verus!
