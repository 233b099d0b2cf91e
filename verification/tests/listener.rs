use wsl_proxy::listener::{crossed, AcceptError, Listener};
use wsl_proxy::peer::{CommunicationPeer, CommunicationSide};

fn pair_of(listener: &mut Listener<&'static str>, peer: CommunicationPeer, name: &'static str) -> Option<(&'static str, &'static str)> {
    listener
        .accept(Some(peer), name)
        .unwrap()
        .map(|pair| (pair.incoming, pair.complement))
}

#[test]
fn peers_name_their_side() {
    let client = CommunicationPeer::client(17);
    assert_eq!(client.side, CommunicationSide::Client);
    assert_eq!(client.id, 17);
    let server = CommunicationPeer::server(17);
    assert_eq!(server.side, CommunicationSide::Server);
    assert_eq!(server.id, 17);
}

#[test]
fn first_connection_waits() {
    let mut listener = Listener::new();
    assert_eq!(pair_of(&mut listener, CommunicationPeer::client(1), "c0"), None);
}

#[test]
fn last_waiting_connection_is_paired() {
    let mut listener = Listener::new();
    assert_eq!(pair_of(&mut listener, CommunicationPeer::client(1), "c0"), None);
    assert_eq!(
        pair_of(&mut listener, CommunicationPeer::server(1), "s0"),
        Some(("s0", "c0"))
    );
    assert_eq!(pair_of(&mut listener, CommunicationPeer::server(1), "s1"), None);
    assert_eq!(
        pair_of(&mut listener, CommunicationPeer::client(1), "c1"),
        Some(("c1", "s1"))
    );
}

#[test]
fn longest_waiting_connection_is_paired_first() {
    let mut listener = Listener::new();
    for name in ["s0", "s1", "s2"] {
        assert_eq!(pair_of(&mut listener, CommunicationPeer::server(9), name), None);
    }
    assert_eq!(pair_of(&mut listener, CommunicationPeer::client(9), "c0"), Some(("c0", "s0")));
    assert_eq!(pair_of(&mut listener, CommunicationPeer::server(9), "s3"), None);
    assert_eq!(pair_of(&mut listener, CommunicationPeer::client(9), "c1"), Some(("c1", "s1")));
    assert_eq!(pair_of(&mut listener, CommunicationPeer::client(9), "c2"), Some(("c2", "s2")));
    assert_eq!(pair_of(&mut listener, CommunicationPeer::client(9), "c3"), Some(("c3", "s3")));
    assert_eq!(pair_of(&mut listener, CommunicationPeer::client(9), "c4"), None);
}

#[test]
fn kth_meets_kth_in_every_interleaving() {
    // Three connections from each side, in all twenty orders.
    for order in 0u32..64 {
        if order.count_ones() != 3 {
            continue;
        }
        let mut listener = Listener::new();
        let (mut clients, mut servers) = (0u32, 0u32);
        let mut links = Vec::new();
        for step in 0..6 {
            let from_client = order >> step & 1 == 1;
            let (peer, number) = if from_client {
                clients += 1;
                (CommunicationPeer::client(5), clients)
            } else {
                servers += 1;
                (CommunicationPeer::server(5), servers)
            };
            if let Some(pair) = listener.accept(Some(peer), (from_client, number)).unwrap() {
                assert_ne!(pair.incoming.0, pair.complement.0);
                assert_eq!(pair.incoming.1, pair.complement.1);
                links.push(pair.incoming.1);
            }
        }
        assert_eq!(links, vec![1, 2, 3]);
        assert!(listener
            .accept(Some(CommunicationPeer::client(5)), (true, 4))
            .unwrap()
            .is_none());
    }
}

#[test]
fn ids_are_kept_apart() {
    let mut listener = Listener::new();
    assert_eq!(pair_of(&mut listener, CommunicationPeer::client(1), "c1"), None);
    assert_eq!(pair_of(&mut listener, CommunicationPeer::server(2), "s2"), None);
    assert_eq!(pair_of(&mut listener, CommunicationPeer::server(1), "s1"), Some(("s1", "c1")));
    assert_eq!(pair_of(&mut listener, CommunicationPeer::client(2), "c2"), Some(("c2", "s2")));
}

#[test]
fn each_end_of_a_pair_gets_what_the_other_sends() {
    let mut listener = Listener::new();
    let first = listener.accept(Some(CommunicationPeer::client(1)), ("c read", "c write"));
    assert!(first.unwrap().is_none());
    let pair = listener
        .accept(Some(CommunicationPeer::server(1)), ("s read", "s write"))
        .unwrap()
        .unwrap();
    let (there, back) = crossed(pair);
    assert_eq!((there.from, there.to), ("s read", "c write"));
    assert_eq!((back.from, back.to), ("c read", "s write"));
}

#[test]
fn jibberish_changes_nothing() {
    let mut listener = Listener::new();
    assert_eq!(pair_of(&mut listener, CommunicationPeer::client(1), "c0"), None);
    assert_eq!(listener.accept(None, "noise").unwrap_err(), AcceptError::Jibberish);
    assert_eq!(pair_of(&mut listener, CommunicationPeer::server(1), "s0"), Some(("s0", "c0")));
}

#[test]
fn jibberish_is_reported_with_its_address() {
    assert_eq!(
        AcceptError::Jibberish.message("127.0.0.1:4000"),
        "Someone sends jibberish on sock 127.0.0.1:4000!!!"
    );
}
