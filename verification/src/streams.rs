//! The three standard streams of a process, and which ends of them are copied
//! into which.

use vstd::prelude::*;

verus! {

/// A standard stream of a process.
#[derive(Debug, Clone, Copy, PartialEq, Eq, Structural)]
pub enum StreamDir {
    Stdin,
    Stdout,
    Stderr,
}

impl StreamDir {
    /// All standard streams, in order.
    pub fn all() -> (dirs: [StreamDir; 3])
        ensures
            dirs@ == every_dir(),
    {
        [StreamDir::Stdin, StreamDir::Stdout, StreamDir::Stderr]
    }
}

/// All standard streams, in order.
pub open spec fn every_dir() -> Seq<StreamDir> {
    seq![StreamDir::Stdin, StreamDir::Stdout, StreamDir::Stderr]
}

/// Something for each standard stream, or for some of them.
#[derive(Debug)]
pub struct ProxyStreams<S> {
    pub stdin: Option<S>,
    pub stdout: Option<S>,
    pub stderr: Option<S>,
}

impl<S> ProxyStreams<S> {
    /// What there is for `dir`.
    pub open spec fn slot(self, dir: StreamDir) -> Option<S> {
        match dir {
            StreamDir::Stdin => self.stdin,
            StreamDir::Stdout => self.stdout,
            StreamDir::Stderr => self.stderr,
        }
    }

    /// Whether there is something for every standard stream.
    pub open spec fn complete(self) -> bool {
        self.stdin is Some && self.stdout is Some && self.stderr is Some
    }
}

impl<S> View for ProxyStreams<S> {
    type V = Map<StreamDir, S>;

    open spec fn view(&self) -> Map<StreamDir, S> {
        Map::new(|dir: StreamDir| self.slot(dir) is Some, |dir: StreamDir| self.slot(dir)->0)
    }
}

/// What is left for each standard stream when `items` are put in their places
/// one after the other.
pub open spec fn collected<S>(items: Seq<(StreamDir, S)>) -> Map<StreamDir, S>
    decreases items.len(),
{
    if items.len() == 0 {
        Map::empty()
    } else {
        collected(items.drop_last()).insert(items.last().0, items.last().1)
    }
}

impl<S> ProxyStreams<S> {
    /// Nothing for any standard stream.
    pub fn new() -> (streams: Self)
        ensures
            streams@ == Map::<StreamDir, S>::empty(),
            streams == (ProxyStreams::<S> { stdin: None, stdout: None, stderr: None }),
    {
        ProxyStreams { stdin: None, stdout: None, stderr: None }
    }

    /// Takes out what there is for `dir`.
    pub fn take(&mut self, dir: StreamDir) -> (item: Option<S>)
        ensures
            item == old(self).slot(dir),
            final(self)@ == old(self)@.remove(dir),
    {
        match dir {
            StreamDir::Stdin => self.stdin.take(),
            StreamDir::Stdout => self.stdout.take(),
            StreamDir::Stderr => self.stderr.take(),
        }
    }

    /// Whether there is something for every standard stream.
    pub fn is_complete(&self) -> (complete: bool)
        ensures
            complete == self.complete(),
    {
        self.stdin.is_some() && self.stdout.is_some() && self.stderr.is_some()
    }

    /// Puts `item` in the place for `dir`.
    pub fn put(&mut self, dir: StreamDir, item: S)
        ensures
            final(self)@ == old(self)@.insert(dir, item),
    {
        match dir {
            StreamDir::Stdin => {
                self.stdin = Some(item);
            },
            StreamDir::Stdout => {
                self.stdout = Some(item);
            },
            StreamDir::Stderr => {
                self.stderr = Some(item);
            },
        }
    }

    /// Puts each of `items` in its place, a later one over an earlier one.
    pub fn collect(items: Vec<(StreamDir, S)>) -> (streams: Self)
        ensures
            streams@ == collected(items@),
    {
        let mut streams = ProxyStreams::new();
        let ghost all = items@;
        for item in iter: items.into_iter()
            invariant
                iter.seq() == all,
                streams@ == collected(all.take(iter.index() as int)),
        {
            proof {
                let done = iter.index() as int;
                assert(all.take(done + 1).drop_last() =~= all.take(done));
            }
            streams.put(item.0, item.1);
        }
        assert(all.take(all.len() as int) =~= all);
        streams
    }
}

/// The streams of whoever wants a process run: where its input comes from and
/// where its output goes.
#[derive(Debug)]
pub struct ProvidedStreams<R, W> {
    pub stdin: R,
    pub stdout: W,
    pub stderr: W,
}

/// The streams of the process that is run: where its input goes and where its
/// output comes from.
#[derive(Debug)]
pub struct ControlledStreams<R, W> {
    pub stdin: W,
    pub stdout: R,
    pub stderr: R,
}

/// A copy to be made.
#[derive(Debug)]
pub struct Route<R, W> {
    pub from: R,
    pub to: W,
}

/// The copy to be made for each standard stream.
#[derive(Debug)]
pub struct Routes<R, W> {
    pub stdin: Route<R, W>,
    pub stdout: Route<R, W>,
    pub stderr: Route<R, W>,
}

impl<R, W> Routes<R, W> {
    /// The copy to be made for `dir`.
    pub open spec fn of(self, dir: StreamDir) -> Route<R, W> {
        match dir {
            StreamDir::Stdin => self.stdin,
            StreamDir::Stdout => self.stdout,
            StreamDir::Stderr => self.stderr,
        }
    }
}

/// The copies between the two ends: input to the process, output from it.
pub open spec fn routes_between<R, W>(
    provided: ProvidedStreams<R, W>,
    controlled: ControlledStreams<R, W>,
) -> Routes<R, W> {
    Routes {
        stdin: Route { from: provided.stdin, to: controlled.stdin },
        stdout: Route { from: controlled.stdout, to: provided.stdout },
        stderr: Route { from: controlled.stderr, to: provided.stderr },
    }
}

/// The streams of the process as its client has them, out of a connection with
/// a reading and a writing half for each.
pub open spec fn controlled_over<R, W>(connections: ProxyStreams<(R, W)>) -> ControlledStreams<
    R,
    W,
> {
    ControlledStreams {
        stdin: (connections.stdin->0).1,
        stdout: (connections.stdout->0).0,
        stderr: (connections.stderr->0).0,
    }
}

/// The streams of the client as the process has them, out of a connection with
/// a reading and a writing half for each.
pub open spec fn provided_over<R, W>(connections: ProxyStreams<(R, W)>) -> ProvidedStreams<R, W> {
    ProvidedStreams {
        stdin: (connections.stdin->0).0,
        stdout: (connections.stdout->0).1,
        stderr: (connections.stderr->0).1,
    }
}

/// The copies to be made while a process runs.
pub fn routes<R, W>(
    provided: ProvidedStreams<R, W>,
    controlled: ControlledStreams<R, W>,
) -> (routes: Routes<R, W>)
    ensures
        routes == routes_between(provided, controlled),
{
    Routes {
        stdin: Route { from: provided.stdin, to: controlled.stdin },
        stdout: Route { from: controlled.stdout, to: provided.stdout },
        stderr: Route { from: controlled.stderr, to: provided.stderr },
    }
}

impl<R, W> ProxyStreams<(R, W)> {
    /// The client's end: input is written to its connection, output is read
    /// from theirs.
    pub fn into_controlled(self) -> (controlled: ControlledStreams<R, W>)
        requires
            self.complete(),
        ensures
            controlled == controlled_over(self),
    {
        ControlledStreams {
            stdin: self.stdin.unwrap().1,
            stdout: self.stdout.unwrap().0,
            stderr: self.stderr.unwrap().0,
        }
    }

    /// The server's end: input is read from its connection, output is written
    /// to theirs.
    pub fn into_provided(self) -> (provided: ProvidedStreams<R, W>)
        requires
            self.complete(),
        ensures
            provided == provided_over(self),
    {
        ProvidedStreams {
            stdin: self.stdin.unwrap().0,
            stdout: self.stdout.unwrap().1,
            stderr: self.stderr.unwrap().1,
        }
    }
}

/// The two ends fit: over the connection for the input the client copies from
/// its user and the server into the process; over those for the output the
/// server copies from the process and the client to its user.
pub proof fn client_and_server_fit<R, W>(
    user: ProvidedStreams<R, W>,
    at_client: ProxyStreams<(R, W)>,
    at_server: ProxyStreams<(R, W)>,
    process: ControlledStreams<R, W>,
)
    requires
        at_client.complete(),
        at_server.complete(),
    ensures
        ({
            let client = routes_between(user, controlled_over(at_client));
            let server = routes_between(provided_over(at_server), process);
            &&& client.stdin == Route { from: user.stdin, to: at_client@[StreamDir::Stdin].1 }
            &&& server.stdin == Route { from: at_server@[StreamDir::Stdin].0, to: process.stdin }
            &&& server.stdout == Route {
                from: process.stdout,
                to: at_server@[StreamDir::Stdout].1,
            }
            &&& client.stdout == Route { from: at_client@[StreamDir::Stdout].0, to: user.stdout }
            &&& server.stderr == Route {
                from: process.stderr,
                to: at_server@[StreamDir::Stderr].1,
            }
            &&& client.stderr == Route { from: at_client@[StreamDir::Stderr].0, to: user.stderr }
        }),
{
}

/// Streams that were collected one for each place, in the order of the places,
/// are complete.
pub proof fn one_for_each_is_complete<S>(items: Seq<(StreamDir, S)>, streams: ProxyStreams<S>)
    requires
        items.map_values(|item: (StreamDir, S)| item.0) == every_dir(),
        streams@ == collected(items),
    ensures
        streams.complete(),
        forall|i: int| 0 <= i < 3 ==> streams@[#[trigger] every_dir()[i]] == items[i].1,
{
    let dirs = items.map_values(|item: (StreamDir, S)| item.0);
    assert(items.len() == dirs.len());
    reveal_with_fuel(collected, 4);
    assert(streams@.contains_key(StreamDir::Stdin));
    assert(streams@.contains_key(StreamDir::Stdout));
    assert(streams@.contains_key(StreamDir::Stderr));
}

/// What is put in a place is in that place, the other places keep what they
/// have, and to take it out again leaves the place empty and gives it back.
pub proof fn what_is_put_is_taken<S>(
    streams: &mut ProxyStreams<S>,
    dir: StreamDir,
    item: S,
    taking: &mut ProxyStreams<S>,
    taken: Option<S>,
)
    requires
        call_ensures(ProxyStreams::<S>::put, (streams, dir, item), ()),
        *old(taking) == *final(streams),
        call_ensures(ProxyStreams::<S>::take, (taking, dir), taken),
    ensures
        taken == Some(item),
        final(streams).stdin == (if dir is Stdin {
            Some(item)
        } else {
            old(streams).stdin
        }),
        final(streams).stdout == (if dir is Stdout {
            Some(item)
        } else {
            old(streams).stdout
        }),
        final(streams).stderr == (if dir is Stderr {
            Some(item)
        } else {
            old(streams).stderr
        }),
        final(taking).stdin == (if dir is Stdin {
            None
        } else {
            old(streams).stdin
        }),
        final(taking).stdout == (if dir is Stdout {
            None
        } else {
            old(streams).stdout
        }),
        final(taking).stderr == (if dir is Stderr {
            None
        } else {
            old(streams).stderr
        }),
{
    places_tell_the_streams(*old(streams));
    places_tell_the_streams(*final(streams));
    places_tell_the_streams(*final(taking));
}

/// Each place is seen under its stream.
proof fn places_tell_the_streams<S>(streams: ProxyStreams<S>)
    ensures
        streams@.contains_key(StreamDir::Stdin) == streams.stdin is Some,
        streams@.contains_key(StreamDir::Stdout) == streams.stdout is Some,
        streams@.contains_key(StreamDir::Stderr) == streams.stderr is Some,
        streams.stdin matches Some(item) ==> streams@[StreamDir::Stdin] == item,
        streams.stdout matches Some(item) ==> streams@[StreamDir::Stdout] == item,
        streams.stderr matches Some(item) ==> streams@[StreamDir::Stderr] == item,
{
}

/// The set is complete exactly if no place is empty; a new one has nothing in
/// any place.
pub proof fn complete_is_without_gaps<S>(
    streams: ProxyStreams<S>,
    complete: bool,
    empty: ProxyStreams<S>,
)
    requires
        call_ensures(ProxyStreams::<S>::is_complete, (&streams,), complete),
        call_ensures(ProxyStreams::<S>::new, (), empty),
    ensures
        complete <==> streams.stdin is Some && streams.stdout is Some && streams.stderr is Some,
        empty.stdin is None && empty.stdout is None && empty.stderr is None,
{
}

/// What is collected for a place is what came last for it.
proof fn last_one_is_collected<S>(items: Seq<(StreamDir, S)>, dir: StreamDir, k: int)
    requires
        forall|j: int| k < j < items.len() ==> (#[trigger] items[j]).0 != dir,
        -1 <= k < items.len(),
        k >= 0 ==> items[k].0 == dir,
    ensures
        k >= 0 ==> collected(items).contains_key(dir) && collected(items)[dir] == items[k].1,
        k < 0 ==> !collected(items).contains_key(dir),
    decreases items.len(),
{
    if items.len() > 0 && k < items.len() - 1 {
        last_one_is_collected(items.drop_last(), dir, k);
    }
}

/// Of all that is collected for a place, however much it is, the last one
/// stays.
pub proof fn last_one_for_a_place_stays<S>(
    items: Vec<(StreamDir, S)>,
    streams: ProxyStreams<S>,
    k: int,
)
    requires
        call_ensures(ProxyStreams::<S>::collect, (items,), streams),
        0 <= k < items@.len(),
        forall|j: int| k < j < items@.len() ==> (#[trigger] items@[j]).0 != items@[k].0,
    ensures
        items@[k].0 is Stdin ==> streams.stdin == Some(items@[k].1),
        items@[k].0 is Stdout ==> streams.stdout == Some(items@[k].1),
        items@[k].0 is Stderr ==> streams.stderr == Some(items@[k].1),
{
    last_one_is_collected(items@, items@[k].0, k);
    places_tell_the_streams(streams);
}

/// A place for which nothing is collected stays empty.
pub proof fn place_without_an_item_stays_empty<S>(
    items: Vec<(StreamDir, S)>,
    streams: ProxyStreams<S>,
    dir: StreamDir,
)
    requires
        call_ensures(ProxyStreams::<S>::collect, (items,), streams),
        forall|j: int| 0 <= j < items@.len() ==> (#[trigger] items@[j]).0 != dir,
    ensures
        dir is Stdin ==> streams.stdin is None,
        dir is Stdout ==> streams.stdout is None,
        dir is Stderr ==> streams.stderr is None,
{
    last_one_is_collected(items@, dir, -1);
    places_tell_the_streams(streams);
}

/// The wiring of the client: its user's input goes to the connection for the
/// input, and what comes over those for the output goes to its user.
pub proof fn client_copies_between_user_and_connections<R, W>(
    user: ProvidedStreams<R, W>,
    connections: ProxyStreams<(R, W)>,
    controlled: ControlledStreams<R, W>,
    copies: Routes<R, W>,
)
    requires
        connections.stdin is Some && connections.stdout is Some && connections.stderr is Some,
        call_ensures(ProxyStreams::<(R, W)>::into_controlled, (connections,), controlled),
        call_ensures(routes::<R, W>, (user, controlled), copies),
    ensures
        copies.stdin.from == user.stdin && copies.stdin.to == (connections.stdin->0).1,
        copies.stdout.from == (connections.stdout->0).0 && copies.stdout.to == user.stdout,
        copies.stderr.from == (connections.stderr->0).0 && copies.stderr.to == user.stderr,
{
}

/// The wiring of the server: what comes over the connection for the input goes
/// to the process, and its output to the connections for the output.
pub proof fn server_copies_between_connections_and_process<R, W>(
    connections: ProxyStreams<(R, W)>,
    provided: ProvidedStreams<R, W>,
    process: ControlledStreams<R, W>,
    copies: Routes<R, W>,
)
    requires
        connections.stdin is Some && connections.stdout is Some && connections.stderr is Some,
        call_ensures(ProxyStreams::<(R, W)>::into_provided, (connections,), provided),
        call_ensures(routes::<R, W>, (provided, process), copies),
    ensures
        copies.stdin.from == (connections.stdin->0).0 && copies.stdin.to == process.stdin,
        copies.stdout.from == process.stdout && copies.stdout.to == (connections.stdout->0).1,
        copies.stderr.from == process.stderr && copies.stderr.to == (connections.stderr->0).1,
{
}

} // verus!
