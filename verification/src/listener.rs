//! The daemon's meeting place: connections that name the same id and come from
//! opposite sides are paired in the order in which they arrived.

use vstd::prelude::*;
use std::collections::{HashMap, VecDeque};
use crate::buffer::{frame, MAX_FRAME_LENGTH};
use crate::logging::around;
use crate::peer::{CommmunicationId, CommunicationPeer, CommunicationSide};
use crate::pump::{
    bytes_written, copies_what_follows, data_arrives_behind_its_marker, PumpEvent,
};
use crate::streams::Route;

verus! {

broadcast use vstd::std_specs::hash::group_hash_axioms;

/// Connections of one side that wait for the other: at least one, the oldest
/// in front.
#[derive(Debug)]
struct UnpairedSocks<S> {
    side: CommunicationSide,
    head: S,
    tail: VecDeque<S>,
}

/// Two connections that belong together: the one that has just come in and the
/// one that had been waiting for it.
#[derive(Debug)]
pub struct Pair<S> {
    pub incoming: S,
    pub complement: S,
}

/// Why a connection is turned away.
#[derive(Debug, Clone, Copy, PartialEq, Eq, Structural)]
pub enum AcceptError {
    /// The connection ended before it said who is calling.
    Jibberish,
}

impl AcceptError {
    /// The text for the log, for a connection from `sock_addr`.
    pub fn message(&self, sock_addr: &str) -> (text: String)
        ensures
            text@ == "Someone sends jibberish on sock "@ + sock_addr@ + "!!!"@,
    {
        let mut text: String = "Someone sends jibberish on sock ".to_owned();
        text.append(sock_addr);
        text.append("!!!");
        text
    }
}

/// The connections of one id that wait, all from `side`, the oldest first.
#[verifier::ext_equal]
pub struct Waiting<S> {
    pub side: CommunicationSide,
    pub socks: Seq<S>,
}

/// The connections that wait, by id. An id for which none waits is absent.
pub type Queues<S> = Map<CommmunicationId, Waiting<S>>;

/// Whether a connection from `peer` finds a partner in `queues`.
pub open spec fn finds_partner<S>(queues: Queues<S>, peer: CommunicationPeer) -> bool {
    queues.contains_key(peer.id) && queues[peer.id].side != peer.side
}

/// The partner: the one that has waited longest.
pub open spec fn partner<S>(queues: Queues<S>, peer: CommunicationPeer) -> S {
    queues[peer.id].socks[0]
}

/// What waits after `incoming` has come from `peer`: one fewer if it found a
/// partner, and else one more, at the end of its queue.
pub open spec fn queues_after<S>(
    queues: Queues<S>,
    peer: CommunicationPeer,
    incoming: S,
) -> Queues<S> {
    if finds_partner(queues, peer) {
        if queues[peer.id].socks.len() == 1 {
            queues.remove(peer.id)
        } else {
            queues.insert(
                peer.id,
                Waiting { side: queues[peer.id].side, socks: queues[peer.id].socks.drop_first() },
            )
        }
    } else if queues.contains_key(peer.id) {
        queues.insert(
            peer.id,
            Waiting { side: peer.side, socks: queues[peer.id].socks.push(incoming) },
        )
    } else {
        queues.insert(peer.id, Waiting { side: peer.side, socks: seq![incoming] })
    }
}

/// The connections that have come in and wait for their partners.
#[derive(Debug)]
pub struct Listener<S> {
    unpaired_socks: HashMap<CommmunicationId, Option<UnpairedSocks<S>>>,
}

impl<S> View for Listener<S> {
    type V = Queues<S>;

    closed spec fn view(&self) -> Queues<S> {
        queues_of(self.unpaired_socks@)
    }
}

spec fn socks_of<S>(unpaired: UnpairedSocks<S>) -> Seq<S> {
    seq![unpaired.head] + unpaired.tail@
}

spec fn queues_of<S>(unpaired_socks: Map<CommmunicationId, Option<UnpairedSocks<S>>>) -> Queues<S> {
    Map::new(
        |id: CommmunicationId| unpaired_socks.contains_key(id) && unpaired_socks[id] is Some,
        |id: CommmunicationId|
            Waiting { side: unpaired_socks[id]->0.side, socks: socks_of(unpaired_socks[id]->0) },
    )
}

impl<S> Listener<S> {
    /// A listener to which nobody has connected yet.
    pub fn new() -> (listener: Self)
        ensures
            listener@ == Map::<CommmunicationId, Waiting<S>>::empty(),
    {
        Listener { unpaired_socks: HashMap::new() }
    }

    /// Takes in the connection `incoming`, which called itself `descriptor`.
    /// If the other side of the same id has connections waiting, it is paired
    /// with the oldest of them; else it joins the queue. A connection that
    /// ended before it named itself is turned away and changes nothing.
    pub fn accept(&mut self, descriptor: Option<CommunicationPeer>, incoming: S) -> (res: Result<
        Option<Pair<S>>,
        AcceptError,
    >)
        ensures
            match descriptor {
                None => res == Err::<Option<Pair<S>>, AcceptError>(AcceptError::Jibberish)
                    && final(self)@ == old(self)@,
                Some(peer) => {
                    &&& final(self)@ == queues_after(old(self)@, peer, incoming)
                    &&& res == Ok::<Option<Pair<S>>, AcceptError>(
                        if finds_partner(old(self)@, peer) {
                            Some(Pair { incoming, complement: partner(old(self)@, peer) })
                        } else {
                            None
                        },
                    )
                },
            },
    {
        let peer = match descriptor {
            None => return Err(AcceptError::Jibberish),
            Some(peer) => peer,
        };
        let ghost before = self.unpaired_socks@;
        let unpaired = self.unpaired_socks.entry(peer.id).or_insert(None);
        let (new_unpaired, pair) = match unpaired.take() {
            Some(mut unpaired) => if unpaired.side != peer.side {
                match unpaired.tail.pop_front() {
                    None => {
                        let complement = unpaired.head;
                        (None, Some(Pair { incoming, complement }))
                    },
                    Some(new_head) => {
                        let complement = unpaired.head;
                        unpaired.head = new_head;
                        (Some(unpaired), Some(Pair { incoming, complement }))
                    },
                }
            } else {
                unpaired.tail.push_back(incoming);
                (Some(unpaired), None)
            },
            None => (
                Some(UnpairedSocks { side: peer.side, head: incoming, tail: VecDeque::new() }),
                None,
            ),
        };
        *unpaired = new_unpaired;
        proof {
            assert(self@ =~~= queues_after(queues_of(before), peer, incoming));
        }
        Ok(pair)
    }
}

/// A connection that came in, and who opened it.
pub type Arrival<S> = (CommunicationPeer, S);

/// What waits after `arrivals` have come in, in this order, at a new listener.
pub open spec fn queues_after_all<S>(arrivals: Seq<Arrival<S>>) -> Queues<S>
    decreases arrivals.len(),
{
    if arrivals.len() == 0 {
        Map::empty()
    } else {
        queues_after(
            queues_after_all(arrivals.drop_last()),
            arrivals.last().0,
            arrivals.last().1,
        )
    }
}

/// The connections among `arrivals` that `side` opened for `id`, in order.
pub open spec fn opened_by<S>(
    arrivals: Seq<Arrival<S>>,
    id: CommmunicationId,
    side: CommunicationSide,
) -> Seq<S>
    decreases arrivals.len(),
{
    if arrivals.len() == 0 {
        seq![]
    } else {
        let earlier = opened_by(arrivals.drop_last(), id, side);
        if arrivals.last().0 == (CommunicationPeer { side, id }) {
            earlier.push(arrivals.last().1)
        } else {
            earlier
        }
    }
}

/// The pairs that a new listener makes for `id` out of `arrivals`, in the order
/// in which it makes them, each with the client's connection first.
pub open spec fn links<S>(arrivals: Seq<Arrival<S>>, id: CommmunicationId) -> Seq<(S, S)>
    decreases arrivals.len(),
{
    if arrivals.len() == 0 {
        seq![]
    } else {
        let earlier = links(arrivals.drop_last(), id);
        let queues = queues_after_all(arrivals.drop_last());
        let (peer, incoming) = arrivals.last();
        if peer.id == id && finds_partner(queues, peer) {
            earlier.push(
                if peer.side == CommunicationSide::Client {
                    (incoming, partner(queues, peer))
                } else {
                    (partner(queues, peer), incoming)
                },
            )
        } else {
            earlier
        }
    }
}

/// What waits of the connections `own`, of which the first `paired` have found
/// a partner.
pub open spec fn left_waiting<S>(
    queues: Queues<S>,
    id: CommmunicationId,
    side: CommunicationSide,
    own: Seq<S>,
    paired: int,
) -> bool {
    queues.contains_key(id) && queues[id].side == side && queues[id].socks == own.skip(paired)
}

/// Whatever has come in: for every id, the first connection of the client is
/// paired with the first of the server, the second with the second, and so on,
/// as far as both sides have come. What is left over on one side waits, in
/// order of arrival, and nothing else does. So no connection is lost, none is
/// paired twice, and none meets one of another id or of its own side.
pub proof fn connections_are_paired_in_order<S>(
    arrivals: Seq<Arrival<S>>,
    id: CommmunicationId,
)
    ensures
        ({
            let clients = opened_by(arrivals, id, CommunicationSide::Client);
            let servers = opened_by(arrivals, id, CommunicationSide::Server);
            let paired = if clients.len() <= servers.len() {
                clients.len()
            } else {
                servers.len()
            };
            let queues = queues_after_all(arrivals);
            &&& links(arrivals, id) == Seq::new(paired, |k: int| (clients[k], servers[k]))
            &&& if clients.len() > servers.len() {
                left_waiting(queues, id, CommunicationSide::Client, clients, paired as int)
            } else if servers.len() > clients.len() {
                left_waiting(queues, id, CommunicationSide::Server, servers, paired as int)
            } else {
                !queues.contains_key(id)
            }
        }),
    decreases arrivals.len(),
{
    if arrivals.len() > 0 {
        let earlier = arrivals.drop_last();
        connections_are_paired_in_order(earlier, id);
        let (peer, incoming) = arrivals.last();
        let clients = opened_by(earlier, id, CommunicationSide::Client);
        let servers = opened_by(earlier, id, CommunicationSide::Server);
        let paired = if clients.len() <= servers.len() {
            clients.len()
        } else {
            servers.len()
        };
        let own = if peer.side == CommunicationSide::Client {
            clients
        } else {
            servers
        };
        let others = if peer.side == CommunicationSide::Client {
            servers
        } else {
            clients
        };
        if peer.id == id {
            if others.len() > own.len() {
                assert(others.skip(paired as int).drop_first() =~= others.skip(paired + 1int));
            } else {
                assert(own.push(incoming).skip(paired as int) =~= own.skip(paired as int).push(
                    incoming,
                ));
                assert(own.skip(own.len() as int) =~= seq![]);
            }
        }
    }
}

/// A connection for one id leaves what waits for every other id as it is.
pub proof fn ids_do_not_disturb_each_other<S>(
    queues: Queues<S>,
    peer: CommunicationPeer,
    incoming: S,
    other: CommmunicationId,
)
    requires
        other != peer.id,
    ensures
        queues_after(queues, peer, incoming).contains_key(other) == queues.contains_key(other),
        queues_after(queues, peer, incoming)[other] == queues[other],
{
}

/// In every listener, an id that is present has at least one connection
/// waiting.
pub proof fn no_queue_is_empty<S>(listener: Listener<S>, id: CommmunicationId)
    requires
        listener@.contains_key(id),
    ensures
        listener@[id].socks.len() > 0,
{
}

/// The copies to be made between the two connections of a pair: what comes in
/// over the one goes out over the other.
pub open spec fn crossed_routes<R, W>(pair: Pair<(R, W)>) -> (Route<R, W>, Route<R, W>) {
    (
        Route { from: pair.incoming.0, to: pair.complement.1 },
        Route { from: pair.complement.0, to: pair.incoming.1 },
    )
}

/// The copies to be made between the two connections of a pair, each of which
/// has a reading and a writing half.
pub fn crossed<R, W>(pair: Pair<(R, W)>) -> (copies: (Route<R, W>, Route<R, W>))
    ensures
        copies == crossed_routes(pair),
{
    let (inc_read, inc_write) = pair.incoming;
    let (compl_read, compl_write) = pair.complement;
    (Route { from: inc_read, to: compl_write }, Route { from: compl_read, to: inc_write })
}

/// The two ends of a pair exchange their data. Each has sent its descriptor in
/// a frame, and data behind it; what is read of it comes in the pieces
/// `chunks`, and `copied` is what each copy has done, to its end. Then over
/// either connection the data of the other has gone out: all of it, in order,
/// nothing else, and then the end of the stream.
pub proof fn ends_of_a_pair_exchange_their_data<R, W, E>(
    pair: Pair<(R, W)>,
    descriptor: spec_fn(R) -> Seq<u8>,
    data: spec_fn(R) -> Seq<u8>,
    chunks: spec_fn(R) -> Seq<Seq<u8>>,
    copied: spec_fn(Route<R, W>) -> Seq<PumpEvent<E>>,
)
    requires
        forall|end: R|
            end == pair.incoming.0 || end == pair.complement.0 ==> {
                &&& (#[trigger] descriptor(end)).len() <= MAX_FRAME_LENGTH
                &&& chunks(end).flatten() == frame(descriptor(end)) + data(end)
                &&& forall|i: int| 0 <= i < chunks(end).len() ==> (#[trigger] chunks(end)[i]).len() > 0
            },
        copies_what_follows(chunks(pair.incoming.0), copied(crossed_routes(pair).0)),
        copies_what_follows(chunks(pair.complement.0), copied(crossed_routes(pair).1)),
    ensures
        crossed_routes(pair).0.to == pair.complement.1,
        bytes_written(copied(crossed_routes(pair).0)) == data(pair.incoming.0),
        copied(crossed_routes(pair).0).last() is ShutDown,
        crossed_routes(pair).1.to == pair.incoming.1,
        bytes_written(copied(crossed_routes(pair).1)) == data(pair.complement.0),
        copied(crossed_routes(pair).1).last() is ShutDown,
{
    let incoming = pair.incoming.0;
    let complement = pair.complement.0;
    data_arrives_behind_its_marker(
        descriptor(incoming),
        data(incoming),
        chunks(incoming),
        copied(crossed_routes(pair).0),
    );
    data_arrives_behind_its_marker(
        descriptor(complement),
        data(complement),
        chunks(complement),
        copied(crossed_routes(pair).1),
    );
}

/// The connections that wait for `id`, the oldest first.
pub open spec fn waiting_for<S>(queues: Queues<S>, id: CommmunicationId) -> Seq<S> {
    if queues.contains_key(id) {
        queues[id].socks
    } else {
        seq![]
    }
}

/// One connection comes in. If connections of the other side wait for the same
/// id, it is paired with the one that has waited longest, and the others go on
/// waiting as they were; if not, it waits behind those of its own side. Nobody
/// else is concerned, and a connection that has not named itself changes
/// nothing.
pub proof fn incoming_connection_is_paired_or_waits<S>(
    listener: &mut Listener<S>,
    peer: CommunicationPeer,
    incoming: S,
    res: Result<Option<Pair<S>>, AcceptError>,
    other: CommmunicationId,
)
    requires
        call_ensures(Listener::<S>::accept, (listener, Some(peer), incoming), res),
        other != peer.id,
    ensures
        ({
            let before = waiting_for(old(listener)@, peer.id);
            let after = waiting_for(final(listener)@, peer.id);
            let met = old(listener)@.contains_key(peer.id) && old(listener)@[peer.id].side
                != peer.side;
            &&& met ==> {
                &&& res == Ok::<Option<Pair<S>>, AcceptError>(
                    Some(Pair { incoming, complement: before[0] }),
                )
                &&& before.len() > 0
                &&& before == seq![before[0]] + after
                &&& after.len() > 0 ==> final(listener)@[peer.id].side != peer.side
            }
            &&& !met ==> {
                &&& res == Ok::<Option<Pair<S>>, AcceptError>(None)
                &&& after == before + seq![incoming]
                &&& final(listener)@[peer.id].side == peer.side
            }
            &&& final(listener)@.contains_key(other) == old(listener)@.contains_key(other)
            &&& final(listener)@[other] == old(listener)@[other]
        }),
{
}

/// A connection that has not named itself is turned away, and changes nothing;
/// and a new listener has nobody waiting.
pub proof fn unnamed_connection_is_turned_away<S>(
    listener: &mut Listener<S>,
    incoming: S,
    res: Result<Option<Pair<S>>, AcceptError>,
    fresh: Listener<S>,
    id: CommmunicationId,
)
    requires
        call_ensures(Listener::<S>::accept, (listener, None, incoming), res),
        call_ensures(Listener::<S>::new, (), fresh),
    ensures
        res == Err::<Option<Pair<S>>, _>(AcceptError::Jibberish),
        final(listener)@ == old(listener)@,
        !fresh@.contains_key(id),
{
}

/// A client and the server that it started meet, whatever its process id is:
/// whichever of them calls first waits, and the other is paired with it. A
/// server of another client is not.
pub proof fn client_meets_its_own_server<S>(
    client_pid: CommmunicationId,
    server_of: CommmunicationId,
    client: CommunicationPeer,
    server: CommunicationPeer,
    client_first: bool,
    first: S,
    second: S,
    listener: &mut Listener<S>,
    first_res: Result<Option<Pair<S>>, AcceptError>,
    after_first: &mut Listener<S>,
    second_res: Result<Option<Pair<S>>, AcceptError>,
)
    requires
        call_ensures(CommunicationPeer::client, (client_pid,), client),
        call_ensures(CommunicationPeer::server, (server_of,), server),
        call_ensures(Listener::<S>::new, (), *old(listener)),
        call_ensures(
            Listener::<S>::accept,
            (
                listener,
                Some(
                    if client_first {
                        client
                    } else {
                        server
                    },
                ),
                first,
            ),
            first_res,
        ),
        *old(after_first) == *final(listener),
        call_ensures(
            Listener::<S>::accept,
            (
                after_first,
                Some(
                    if client_first {
                        server
                    } else {
                        client
                    },
                ),
                second,
            ),
            second_res,
        ),
    ensures
        client.side is Client && server.side is Server,
        first_res == Ok::<Option<Pair<S>>, AcceptError>(None),
        second_res == Ok::<Option<Pair<S>>, AcceptError>(
            if client_pid == server_of {
                Some(Pair { incoming: second, complement: first })
            } else {
                None
            },
        ),
{
}

/// What comes in over either connection of a pair goes out over the other.
pub proof fn pair_is_crossed<R, W>(
    incoming: (R, W),
    complement: (R, W),
    copies: (Route<R, W>, Route<R, W>),
)
    requires
        call_ensures(crossed::<R, W>, (Pair { incoming, complement },), copies),
    ensures
        copies.0.from == incoming.0 && copies.0.to == complement.1,
        copies.1.from == complement.0 && copies.1.to == incoming.1,
{
}

/// The text for a connection that is turned away is the same for all, but for
/// where it came from.
pub proof fn jibberish_is_told_with_its_origin(
    sock_addr: &str,
    text: String,
    other: &str,
    other_text: String,
)
    requires
        call_ensures(AcceptError::message, (&AcceptError::Jibberish, sock_addr), text),
        call_ensures(AcceptError::message, (&AcceptError::Jibberish, other), other_text),
    ensures
        exists|before: Seq<char>, after: Seq<char>|
            text@ == #[trigger] around(before, sock_addr@, after) && other_text@ == around(
                before,
                other@,
                after,
            ),
{
    let before = "Someone sends jibberish on sock "@;
    let after = "!!!"@;
    assert(text@ == around(before, sock_addr@, after));
}

} // verus!
