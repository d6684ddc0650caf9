//! The library's error type.
use vstd::prelude::*;
use crate::text::{owned, push_str};

verus! {

/// What can go wrong, by area; each variant carries a message.
pub enum Error {
    Config(String),
    NetworkManager(String),
    Ovs(String),
    Dbus(String),
    Io(String),
    Serialization(String),
    Validation(String),
    Bridge(String),
    Port(String),
    Fuse(String),
    Blockchain(String),
    Plugin(String),
    State(String),
    Network(String),
    Container(String),
    Systemd(String),
    Netlink(String),
    Btrfs(String),
    Ledger(String),
    Metrics(String),
    Internal(String),
    External(String),
}

/// The label an error's text starts with, and its message.
pub open spec fn error_parts(e: Error) -> (Seq<char>, Seq<char>) {
    match e {
        Error::Config(m) => ("Configuration error: "@, m@),
        Error::NetworkManager(m) => ("NetworkManager error: "@, m@),
        Error::Ovs(m) => ("OVS error: "@, m@),
        Error::Dbus(m) => ("D-Bus error: "@, m@),
        Error::Io(m) => ("IO error: "@, m@),
        Error::Serialization(m) => ("Serialization error: "@, m@),
        Error::Validation(m) => ("Validation error: "@, m@),
        Error::Bridge(m) => ("Bridge error: "@, m@),
        Error::Port(m) => ("Port error: "@, m@),
        Error::Fuse(m) => ("FUSE error: "@, m@),
        Error::Blockchain(m) => ("Blockchain error: "@, m@),
        Error::Plugin(m) => ("Plugin error: "@, m@),
        Error::State(m) => ("State management error: "@, m@),
        Error::Network(m) => ("Network error: "@, m@),
        Error::Container(m) => ("Container error: "@, m@),
        Error::Systemd(m) => ("Systemd error: "@, m@),
        Error::Netlink(m) => ("Netlink error: "@, m@),
        Error::Btrfs(m) => ("Btrfs error: "@, m@),
        Error::Ledger(m) => ("Ledger error: "@, m@),
        Error::Metrics(m) => ("Metrics error: "@, m@),
        Error::Internal(m) => ("Internal error: "@, m@),
        Error::External(m) => ("External error: "@, m@),
    }
}

impl Error {
    /// The error as text: its area's label followed by its message.
    pub fn to_string(&self) -> (r: String)
        ensures
            r@ == error_parts(*self).0 + error_parts(*self).1,
    {
        let (label, m) = match self {
            Error::Config(m) => ("Configuration error: ", m),
            Error::NetworkManager(m) => ("NetworkManager error: ", m),
            Error::Ovs(m) => ("OVS error: ", m),
            Error::Dbus(m) => ("D-Bus error: ", m),
            Error::Io(m) => ("IO error: ", m),
            Error::Serialization(m) => ("Serialization error: ", m),
            Error::Validation(m) => ("Validation error: ", m),
            Error::Bridge(m) => ("Bridge error: ", m),
            Error::Port(m) => ("Port error: ", m),
            Error::Fuse(m) => ("FUSE error: ", m),
            Error::Blockchain(m) => ("Blockchain error: ", m),
            Error::Plugin(m) => ("Plugin error: ", m),
            Error::State(m) => ("State management error: ", m),
            Error::Network(m) => ("Network error: ", m),
            Error::Container(m) => ("Container error: ", m),
            Error::Systemd(m) => ("Systemd error: ", m),
            Error::Netlink(m) => ("Netlink error: ", m),
            Error::Btrfs(m) => ("Btrfs error: ", m),
            Error::Ledger(m) => ("Ledger error: ", m),
            Error::Metrics(m) => ("Metrics error: ", m),
            Error::Internal(m) => ("Internal error: ", m),
            Error::External(m) => ("External error: ", m),
        };
        let mut s = owned(label);
        push_str(&mut s, m.as_str());
        s
    }
}

} // verus!
