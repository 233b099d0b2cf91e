//! The verified core of a process proxy: connections of a client and of a
//! server meet at a daemon, which pairs them, and the standard streams of a
//! process on the server's side travel over the paired connections.

pub mod acceptor;
pub mod buffer;
pub mod child;
pub mod command;
pub mod daemon;
pub mod decimal;
pub mod framing;
pub mod listener;
pub mod logging;
pub mod peer;
pub mod port_file;
pub mod pump;
pub mod relay;
pub mod streams;
