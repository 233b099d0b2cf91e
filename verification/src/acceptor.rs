//! The client's side of the handshake: each connection that the server has
//! marked for a standard stream goes to whoever waits for that stream.

use vstd::prelude::*;
use crate::streams::{collected, every_dir, ProxyStreams, StreamDir};

verus! {

/// Why the client gives up collecting its connections.
#[derive(Debug, Clone, Copy, PartialEq, Eq, Structural)]
pub enum AcceptorError {
    /// A connection ended before it was marked.
    Jibberish,
    /// A second connection is marked for the same stream.
    NoChannel,
    /// Nobody waits for the connection any more.
    AlreadyAttached,
    /// No connection will come for a stream that somebody waits for.
    NothingReceived,
}

impl AcceptorError {
    /// The text for the log.
    pub open spec fn text(self) -> Seq<char> {
        match self {
            AcceptorError::Jibberish => "Server sends jibberish!!!"@,
            AcceptorError::NoChannel => "Channel to send to is not created yet!!!"@,
            AcceptorError::AlreadyAttached => "Channel to send to was already attached!"@,
            AcceptorError::NothingReceived => "Unable to receive socket for reading!!!"@,
        }
    }

    /// The text for the log.
    pub fn message(&self) -> (text: String)
        ensures
            text@ == self.text(),
    {
        match self {
            AcceptorError::Jibberish => "Server sends jibberish!!!".to_owned(),
            AcceptorError::NoChannel => "Channel to send to is not created yet!!!".to_owned(),
            AcceptorError::AlreadyAttached => "Channel to send to was already attached!".to_owned(),
            AcceptorError::NothingReceived => "Unable to receive socket for reading!!!".to_owned(),
        }
    }
}

/// The channels over which connections are handed to those who wait for them:
/// one for each standard stream, each good for one connection.
#[derive(Debug)]
pub struct Acceptor<C> {
    chans: ProxyStreams<C>,
}

impl<C> View for Acceptor<C> {
    type V = Map<StreamDir, C>;

    /// The channels that have not been used.
    closed spec fn view(&self) -> Map<StreamDir, C> {
        self.chans@
    }
}

/// What a connection that carries the mark `mark` is answered, while `chans`
/// have not been used.
pub open spec fn channel_for<C>(chans: Map<StreamDir, C>, mark: Option<StreamDir>) -> Result<
    C,
    AcceptorError,
> {
    match mark {
        None => Err(AcceptorError::Jibberish),
        Some(dir) => if chans.contains_key(dir) {
            Ok(chans[dir])
        } else {
            Err(AcceptorError::NoChannel)
        },
    }
}

/// The channels that have not been used after a connection with the mark
/// `mark`.
pub open spec fn channels_after<C>(chans: Map<StreamDir, C>, mark: Option<StreamDir>) -> Map<
    StreamDir,
    C,
> {
    match mark {
        None => chans,
        Some(dir) => chans.remove(dir),
    }
}

/// The one of three that belongs to `dir`.
pub open spec fn of_dir<T>(dir: StreamDir, stdin: T, stdout: T, stderr: T) -> T {
    match dir {
        StreamDir::Stdin => stdin,
        StreamDir::Stdout => stdout,
        StreamDir::Stderr => stderr,
    }
}

/// The channels to put connections into, where `ends` are the two ends of the
/// channel for each stream.
pub open spec fn sending_ends<C, R>(ends: spec_fn(StreamDir) -> (C, R)) -> Map<StreamDir, C> {
    Map::new(|dir: StreamDir| true, |dir: StreamDir| ends(dir).0)
}

/// Who waits for which stream, where `ends` are the two ends of the channel for
/// each stream.
pub open spec fn receiving_ends<C, R>(ends: spec_fn(StreamDir) -> (C, R)) -> Seq<(StreamDir, R)> {
    every_dir().map_values(|dir: StreamDir| (dir, ends(dir).1))
}

impl<C> Acceptor<C> {
    /// All channels, unused.
    pub fn new(stdin: C, stdout: C, stderr: C) -> (acceptor: Self)
        ensures
            acceptor@ == map![
                StreamDir::Stdin => stdin,
                StreamDir::Stdout => stdout,
                StreamDir::Stderr => stderr,
            ],
    {
        let chans = ProxyStreams {
            stdin: Some(stdin),
            stdout: Some(stdout),
            stderr: Some(stderr),
        };
        Acceptor { chans }
    }

    /// All channels, unused, and who waits at the other end of each. A channel
    /// comes as its two ends, first the one to put a connection into.
    pub fn with_awaiters<R>(stdin: (C, R), stdout: (C, R), stderr: (C, R)) -> (res: (
        Self,
        Vec<(StreamDir, R)>,
    ))
        ensures
            res.0@ == sending_ends(|dir: StreamDir| of_dir(dir, stdin, stdout, stderr)),
            res.1@ == receiving_ends(|dir: StreamDir| of_dir(dir, stdin, stdout, stderr)),
    {
        let mut awaiters: Vec<(StreamDir, R)> = Vec::new();
        awaiters.push((StreamDir::Stdin, stdin.1));
        awaiters.push((StreamDir::Stdout, stdout.1));
        awaiters.push((StreamDir::Stderr, stderr.1));
        let acceptor = Acceptor::new(stdin.0, stdout.0, stderr.0);
        (acceptor, awaiters)
    }

    /// Whether every channel has been used, so that no further connection is
    /// wanted.
    pub fn all_used(&self) -> (done: bool)
        ensures
            done == (self@ == Map::<StreamDir, C>::empty()),
    {
        let done = self.chans.stdin.is_none() && self.chans.stdout.is_none()
            && self.chans.stderr.is_none();
        proof {
            assert(self@.contains_key(StreamDir::Stdin) == self.chans.stdin is Some);
            assert(self@.contains_key(StreamDir::Stdout) == self.chans.stdout is Some);
            assert(self@.contains_key(StreamDir::Stderr) == self.chans.stderr is Some);
            if done {
                assert(self@ =~= Map::<StreamDir, C>::empty());
            }
        }
        done
    }

    /// The channel for a connection that carries the mark `mark`, or that ended
    /// without one.
    pub fn marked(&mut self, mark: Option<StreamDir>) -> (res: Result<C, AcceptorError>)
        ensures
            res == channel_for(old(self)@, mark),
            final(self)@ == channels_after(old(self)@, mark),
    {
        match mark {
            None => Err(AcceptorError::Jibberish),
            Some(dir) => match self.chans.take(dir) {
                None => Err(AcceptorError::NoChannel),
                Some(chan) => Ok(chan),
            },
        }
    }
}

/// Whether to go on after a connection was put into its channel: not if nobody
/// was there to take it.
pub fn delivered(taken: bool) -> (res: Result<(), AcceptorError>)
    ensures
        res == (if taken {
            Ok(())
        } else {
            Err(AcceptorError::AlreadyAttached)
        }),
{
    if taken {
        Ok(())
    } else {
        Err(AcceptorError::AlreadyAttached)
    }
}

/// What there is for a stream, when the one who waited for it got `received`.
pub fn awaited<S>(received: Option<S>) -> (res: Result<S, AcceptorError>)
    ensures
        res == (match received {
            Some(stream) => Ok(stream),
            None => Err(AcceptorError::NothingReceived),
        }),
{
    match received {
        Some(stream) => Ok(stream),
        None => Err(AcceptorError::NothingReceived),
    }
}

/// The connections that have come out of their channels so far.
#[derive(Debug)]
pub struct Collector<S> {
    streams: ProxyStreams<S>,
}

impl<S> View for Collector<S> {
    type V = Map<StreamDir, S>;

    /// The connection of each stream that has one.
    closed spec fn view(&self) -> Map<StreamDir, S> {
        self.streams@
    }
}

/// Whether to wait for more.
#[derive(Debug)]
pub enum Collecting<S> {
    /// Some stream has no connection yet.
    More(Collector<S>),
    /// Every stream has its connection, and collecting is over.
    Done(ProxyStreams<S>),
}

/// Whether there is something for every standard stream.
pub open spec fn for_every_stream<S>(streams: Map<StreamDir, S>) -> bool {
    forall|dir: StreamDir| #[trigger] streams.contains_key(dir)
}

impl<S> Collector<S> {
    /// No connections.
    pub fn new() -> (collector: Self)
        ensures
            collector@ == Map::<StreamDir, S>::empty(),
    {
        Collector { streams: ProxyStreams::new() }
    }

    /// Goes on after the one who waited for `dir` got `received`: files it
    /// under `dir`, and says whether every stream now has its connection.
    pub fn received(self, dir: StreamDir, received: Option<S>) -> (res: Result<
        Collecting<S>,
        AcceptorError,
    >)
        ensures
            match received {
                None => res == Err::<Collecting<S>, _>(AcceptorError::NothingReceived),
                Some(stream) => match res {
                    Ok(Collecting::More(collector)) => {
                        &&& collector@ == self@.insert(dir, stream)
                        &&& !for_every_stream(self@.insert(dir, stream))
                    },
                    Ok(Collecting::Done(streams)) => {
                        &&& streams@ == self@.insert(dir, stream)
                        &&& streams.complete()
                        &&& for_every_stream(self@.insert(dir, stream))
                    },
                    Err(_) => false,
                },
            },
    {
        let stream = match awaited(received) {
            Err(error) => return Err(error),
            Ok(stream) => stream,
        };
        let mut streams = self.streams;
        streams.put(dir, stream);
        proof {
            assert(streams@.contains_key(StreamDir::Stdin) == streams.stdin is Some);
            assert(streams@.contains_key(StreamDir::Stdout) == streams.stdout is Some);
            assert(streams@.contains_key(StreamDir::Stderr) == streams.stderr is Some);
        }
        if streams.is_complete() {
            Ok(Collecting::Done(streams))
        } else {
            Ok(Collecting::More(Collector { streams }))
        }
    }
}

/// The channels that have not been used after connections with `marks`.
pub open spec fn channels_after_all<C>(
    chans: Map<StreamDir, C>,
    marks: Seq<Option<StreamDir>>,
) -> Map<StreamDir, C>
    decreases marks.len(),
{
    if marks.len() == 0 {
        chans
    } else {
        channels_after(channels_after_all(chans, marks.drop_last()), marks.last())
    }
}

/// Whether every connection with one of `marks` found its channel.
pub open spec fn all_found<C>(chans: Map<StreamDir, C>, marks: Seq<Option<StreamDir>>) -> bool
    decreases marks.len(),
{
    marks.len() > 0 ==> {
        &&& all_found(chans, marks.drop_last())
        &&& channel_for(channels_after_all(chans, marks.drop_last()), marks.last()) is Ok
    }
}

/// A channel has been used if and only if a connection was marked for it.
proof fn used_channels_are_those_marked<C>(
    chans: Map<StreamDir, C>,
    marks: Seq<Option<StreamDir>>,
    dir: StreamDir,
)
    ensures
        channels_after_all(chans, marks).contains_key(dir) <==> chans.contains_key(dir)
            && !marks.contains(Some(dir)),
        channels_after_all(chans, marks).contains_key(dir) ==> channels_after_all(chans, marks)[dir]
            == chans[dir],
    decreases marks.len(),
{
    if marks.len() > 0 {
        let earlier = marks.drop_last();
        used_channels_are_those_marked(chans, earlier, dir);
        if marks.contains(Some(dir)) && marks.last() != Some(dir) {
            let i = choose|i: int| 0 <= i < marks.len() && marks[i] == Some(dir);
            assert(earlier[i] == Some(dir));
        }
    }
}

/// As long as every connection found its channel, each carried a mark, and no
/// two of them the same; and where that is so, every one does find its channel.
pub proof fn each_stream_is_marked_once<C>(
    chans: Map<StreamDir, C>,
    marks: Seq<Option<StreamDir>>,
)
    requires
        forall|dir: StreamDir| chans.contains_key(dir),
    ensures
        all_found(chans, marks) <==> marks.no_duplicates() && !marks.contains(None),
    decreases marks.len(),
{
    if marks.len() > 0 {
        let earlier = marks.drop_last();
        each_stream_is_marked_once(chans, earlier);
        match marks.last() {
            None => {},
            Some(dir) => {
                used_channels_are_those_marked(chans, earlier, dir);
                if marks.contains(None) {
                    let i = choose|i: int| 0 <= i < marks.len() && marks[i] is None;
                    assert(earlier[i] is None);
                }
                if earlier.no_duplicates() && !earlier.contains(Some(dir)) {
                    assert forall|i: int, j: int|
                        0 <= i < marks.len() && 0 <= j < marks.len() && i != j implies marks[i]
                        != marks[j] by {
                        if i < earlier.len() {
                            assert(earlier[i] == marks[i]);
                        }
                        if j < earlier.len() {
                            assert(earlier[j] == marks[j]);
                        }
                    }
                }
            },
        }
    }
}

/// No more than three connections find their channels; and once three have,
/// every stream has its connection.
pub proof fn three_connections_are_all<C>(
    chans: Map<StreamDir, C>,
    marks: Seq<Option<StreamDir>>,
)
    requires
        forall|dir: StreamDir| chans.contains_key(dir),
        all_found(chans, marks),
    ensures
        marks.len() <= 3,
        marks.len() == 3 ==> channels_after_all(chans, marks) == Map::<StreamDir, C>::empty(),
{
    each_stream_is_marked_once(chans, marks);
    assert forall|i: int| 0 <= i < marks.len() implies (#[trigger] marks[i]) == Some(
        StreamDir::Stdin,
    ) || marks[i] == Some(StreamDir::Stdout) || marks[i] == Some(StreamDir::Stderr) by {
        match marks[i] {
            Some(StreamDir::Stdin) => {},
            Some(StreamDir::Stdout) => {},
            Some(StreamDir::Stderr) => {},
            None => {},
        }
    }
    if marks.len() > 3 {
        assert(marks[0] != marks[1] && marks[0] != marks[2] && marks[0] != marks[3]);
    }
    if marks.len() == 3 {
        assert forall|dir: StreamDir| !channels_after_all(chans, marks).contains_key(dir) by {
            used_channels_are_those_marked(chans, marks, dir);
        }
    }
}

/// Whether the one who waits for `dir` has received something.
pub open spec fn has_received<S>(received: Seq<(StreamDir, S)>, dir: StreamDir) -> bool {
    exists|k: int| 0 <= k < received.len() && (#[trigger] received[k]).0 == dir
}

/// If of every stream the same is always collected, that is what is there for
/// each stream of which something was collected.
proof fn collected_is_what_was_received<S>(
    received: Seq<(StreamDir, S)>,
    of: spec_fn(StreamDir) -> S,
    dir: StreamDir,
)
    requires
        forall|k: int| 0 <= k < received.len() ==> (#[trigger] received[k]).1 == of(received[k].0),
    ensures
        collected(received).contains_key(dir) <==> has_received(received, dir),
        collected(received).contains_key(dir) ==> collected(received)[dir] == of(dir),
    decreases received.len(),
{
    if received.len() > 0 {
        let earlier = received.drop_last();
        collected_is_what_was_received(earlier, of, dir);
        if received.last().0 != dir {
            assert forall|k: int| 0 <= k < received.len() && (#[trigger] received[k]).0
                == dir implies collected(earlier).contains_key(dir) by {
                assert(earlier[k].0 == dir);
            }
        }
    }
}

/// Every connection ends up in the place of its mark. Connections with `marks`
/// come one after the other and are put into the channels that they find; what
/// is put into a channel comes out at its other end, as `got` says; and in
/// whatever order it is `received` by those who wait, each stream has in the
/// end the connection that was marked for it. Nothing is missing as soon as all
/// who wait have received something.
pub proof fn connections_reach_the_places_of_their_marks<C, R, S>(
    ends: spec_fn(StreamDir) -> (C, R),
    marks: Seq<Option<StreamDir>>,
    connections: Seq<S>,
    got: spec_fn(R) -> S,
    received: Seq<(StreamDir, S)>,
)
    requires
        all_found(sending_ends(ends), marks),
        connections.len() == marks.len(),
        forall|i: int, dir: StreamDir|
            0 <= i < marks.len() && channel_for(
                channels_after_all(sending_ends(ends), marks.take(i)),
                marks[i],
            ) == Ok::<C, AcceptorError>(ends(dir).0) ==> #[trigger] got(ends(dir).1)
                == #[trigger] connections[i],
        forall|k: int|
            0 <= k < received.len() ==> receiving_ends(ends).map_values(
                |awaiter: (StreamDir, R)| (awaiter.0, got(awaiter.1)),
            ).contains(#[trigger] received[k]),
    ensures
        forall|i: int|
            0 <= i < marks.len() ==> {
                &&& (#[trigger] marks[i]) is Some
                &&& collected(received).contains_key(marks[i]->0) ==> collected(
                    received,
                )[marks[i]->0] == connections[i]
            },
        for_every_stream(collected(received)) <==> forall|dir: StreamDir| #[trigger]
            has_received(received, dir),
{
    let chans = sending_ends(ends);
    let of = |dir: StreamDir| got(ends(dir).1);
    each_stream_is_marked_once(chans, marks);
    assert forall|i: int| 0 <= i < marks.len() implies {
        &&& (#[trigger] marks[i]) is Some
        &&& collected(received).contains_key(marks[i]->0) ==> collected(received)[marks[i]->0]
            == connections[i]
    } by {
        let dir = marks[i]->0;
        collected_is_what_was_received(received, of, dir);
        used_channels_are_those_marked(chans, marks.take(i), dir);
    }
    assert forall|dir: StreamDir|
        #![trigger collected(received).contains_key(dir)]
        #![trigger has_received(received, dir)]
        collected(received).contains_key(dir) <==> has_received(received, dir) by {
        collected_is_what_was_received(received, of, dir);
    }
}

/// A connection that is marked for a stream gets the channel of that stream.
/// Two that are marked for different streams do not disturb each other, and of
/// two that are marked for the same one the second gets none.
pub proof fn each_mark_has_its_own_channel<C>(
    stdin: C,
    stdout: C,
    stderr: C,
    fresh: &mut Acceptor<C>,
    first: StreamDir,
    first_res: Result<C, AcceptorError>,
    used: &mut Acceptor<C>,
    second: StreamDir,
    second_res: Result<C, AcceptorError>,
)
    requires
        call_ensures(Acceptor::<C>::new, (stdin, stdout, stderr), *old(fresh)),
        call_ensures(Acceptor::<C>::marked, (fresh, Some(first)), first_res),
        *old(used) == *final(fresh),
        call_ensures(Acceptor::<C>::marked, (used, Some(second)), second_res),
    ensures
        first is Stdin ==> first_res == Ok::<C, AcceptorError>(stdin),
        first is Stdout ==> first_res == Ok::<C, AcceptorError>(stdout),
        first is Stderr ==> first_res == Ok::<C, AcceptorError>(stderr),
        second == first ==> second_res == Err::<C, _>(AcceptorError::NoChannel),
        second != first && second is Stdin ==> second_res == Ok::<C, AcceptorError>(stdin),
        second != first && second is Stdout ==> second_res == Ok::<C, AcceptorError>(stdout),
        second != first && second is Stderr ==> second_res == Ok::<C, AcceptorError>(stderr),
{
}

/// In whatever state the channels are: a mark for a stream whose channel has
/// not been used gets it, and uses it up; every other channel stays as it is. A
/// connection without a mark gets nothing, and changes nothing.
pub proof fn mark_uses_up_its_channel_alone<C>(
    acceptor: &mut Acceptor<C>,
    mark: Option<StreamDir>,
    res: Result<C, AcceptorError>,
    dir: StreamDir,
)
    requires
        call_ensures(Acceptor::<C>::marked, (acceptor, mark), res),
    ensures
        mark is None ==> res == Err::<C, _>(AcceptorError::Jibberish),
        mark == Some(dir) ==> {
            &&& !final(acceptor)@.contains_key(dir)
            &&& old(acceptor)@.contains_key(dir) ==> res == Ok::<C, AcceptorError>(
                old(acceptor)@[dir],
            )
            &&& !old(acceptor)@.contains_key(dir) ==> res == Err::<C, _>(AcceptorError::NoChannel)
        },
        mark != Some(dir) ==> {
            &&& final(acceptor)@.contains_key(dir) == old(acceptor)@.contains_key(dir)
            &&& final(acceptor)@[dir] == old(acceptor)@[dir]
        },
{
}

/// No further connection is wanted exactly if a mark for any stream would find
/// its channel used.
pub proof fn nothing_is_wanted_when_all_are_used<C>(acceptor: Acceptor<C>, done: bool)
    requires
        call_ensures(Acceptor::<C>::all_used, (&acceptor,), done),
    ensures
        done <==> !acceptor@.contains_key(StreamDir::Stdin) && !acceptor@.contains_key(
            StreamDir::Stdout,
        ) && !acceptor@.contains_key(StreamDir::Stderr),
{
    if !acceptor@.contains_key(StreamDir::Stdin) && !acceptor@.contains_key(StreamDir::Stdout)
        && !acceptor@.contains_key(StreamDir::Stderr) {
        assert forall|dir: StreamDir| !acceptor@.contains_key(dir) by {
            match dir {
                StreamDir::Stdin => {},
                StreamDir::Stdout => {},
                StreamDir::Stderr => {},
            }
        }
        assert(acceptor@ =~= Map::<StreamDir, C>::empty());
    }
}

/// Whoever waits for a stream waits at the other end of the channel that a mark
/// for that stream gets.
pub proof fn awaiter_has_the_other_end<C, R>(
    stdin: (C, R),
    stdout: (C, R),
    stderr: (C, R),
    awaiters: Vec<(StreamDir, R)>,
    acceptor: &mut Acceptor<C>,
    dir: StreamDir,
    res: Result<C, AcceptorError>,
)
    requires
        call_ensures(
            Acceptor::<C>::with_awaiters::<R>,
            (stdin, stdout, stderr),
            (*old(acceptor), awaiters),
        ),
        call_ensures(Acceptor::<C>::marked, (acceptor, Some(dir)), res),
    ensures
        awaiters@.len() == 3,
        exists|k: int| 0 <= k < 3 && #[trigger] awaiters@[k].0 == dir,
        forall|k: int|
            0 <= k < 3 && #[trigger] awaiters@[k].0 == dir ==> {
                let channel = if dir is Stdin {
                    stdin
                } else if dir is Stdout {
                    stdout
                } else {
                    stderr
                };
                res == Ok::<C, AcceptorError>(channel.0) && awaiters@[k].1 == channel.1
            },
{
    match dir {
        StreamDir::Stdin => {
            assert(awaiters@[0].0 == dir);
        },
        StreamDir::Stdout => {
            assert(awaiters@[1].0 == dir);
        },
        StreamDir::Stderr => {
            assert(awaiters@[2].0 == dir);
        },
    }
}

/// A connection that nobody took is an error, and so is to wait in vain; else
/// what was sent is what was awaited.
pub proof fn nobody_is_passed_over<S>(
    taken: bool,
    sent: Result<(), AcceptorError>,
    received: Option<S>,
    got: Result<S, AcceptorError>,
)
    requires
        call_ensures(delivered, (taken,), sent),
        call_ensures(awaited::<S>, (received,), got),
    ensures
        taken <==> sent is Ok,
        sent matches Err(error) ==> error is AlreadyAttached,
        received matches Some(stream) ==> got == Ok::<S, AcceptorError>(stream),
        received is None ==> got == Err::<S, _>(AcceptorError::NothingReceived),
{
}

/// What is received for a stream is put in its place and leaves the others as
/// they are; collecting is over exactly when no place is empty.
pub proof fn received_is_put_in_its_place<S>(
    collector: Collector<S>,
    dir: StreamDir,
    stream: S,
    res: Result<Collecting<S>, AcceptorError>,
    in_vain: Result<Collecting<S>, AcceptorError>,
    other: StreamDir,
)
    requires
        call_ensures(Collector::<S>::received, (collector, dir, Some(stream)), res),
        call_ensures(Collector::<S>::received, (collector, dir, None), in_vain),
        other != dir,
    ensures
        in_vain == Err::<Collecting<S>, _>(AcceptorError::NothingReceived),
        match res {
            Ok(Collecting::More(next)) => {
                &&& next@.contains_key(dir) && next@[dir] == stream
                &&& next@.contains_key(other) == collector@.contains_key(other)
                &&& next@[other] == collector@[other]
                &&& !next@.contains_key(StreamDir::Stdin) || !next@.contains_key(StreamDir::Stdout)
                    || !next@.contains_key(StreamDir::Stderr)
            },
            Ok(Collecting::Done(streams)) => {
                &&& streams.stdin is Some && streams.stdout is Some && streams.stderr is Some
                &&& streams.stdin == Some(
                    if dir is Stdin {
                        stream
                    } else {
                        collector@[StreamDir::Stdin]
                    },
                )
                &&& streams.stdout == Some(
                    if dir is Stdout {
                        stream
                    } else {
                        collector@[StreamDir::Stdout]
                    },
                )
                &&& streams.stderr == Some(
                    if dir is Stderr {
                        stream
                    } else {
                        collector@[StreamDir::Stderr]
                    },
                )
                &&& collector@.contains_key(other)
            },
            Err(_) => false,
        },
{
    if let Ok(Collecting::Done(streams)) = res {
        assert(streams@.contains_key(other));
        assert(streams@[StreamDir::Stdin] == streams.stdin->0);
        assert(streams@[StreamDir::Stdout] == streams.stdout->0);
        assert(streams@[StreamDir::Stderr] == streams.stderr->0);
    }
}

/// A collector starts without any connection.
pub proof fn new_collector_has_nothing<S>(collector: Collector<S>, dir: StreamDir)
    requires
        call_ensures(Collector::<S>::new, (), collector),
    ensures
        !collector@.contains_key(dir),
{
}

} // verus!
