//! Who is on the other end of a connection, and what the connection carries.

use vstd::prelude::*;

verus! {

/// Which of the two programs opened a connection.
#[derive(Debug, Clone, Copy, PartialEq, Eq, Structural)]
pub enum CommunicationSide {
    Client,
    Server,
}

/// Identifies one client together with the server that it started: the
/// client's process id.
pub type CommmunicationId = u32;

/// What a program says of itself when it connects to the daemon.
#[derive(Debug, Clone, Copy, PartialEq, Eq, Structural)]
pub struct CommunicationPeer {
    pub side: CommunicationSide,
    pub id: CommmunicationId,
}

impl CommunicationPeer {
    /// The peer that the client with process id `pid` announces.
    pub fn client(pid: CommmunicationId) -> (peer: CommunicationPeer)
        ensures
            peer.side == CommunicationSide::Client,
            peer.id == pid,
    {
        CommunicationPeer { side: CommunicationSide::Client, id: pid }
    }

    /// The peer that a server announces which the client with process id
    /// `client_pid` started.
    pub fn server(client_pid: CommmunicationId) -> (peer: CommunicationPeer)
        ensures
            peer.side == CommunicationSide::Server,
            peer.id == client_pid,
    {
        CommunicationPeer { side: CommunicationSide::Server, id: client_pid }
    }
}

} // verus!
