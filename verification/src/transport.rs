//! Where a network printer is reached and how long to wait for it.

use vstd::prelude::*;
use crate::text::{decimal, push_decimal};

verus! {

/// `ip:port`.
pub open spec fn address_of(ip: Seq<char>, port: u16) -> Seq<char> {
    ip + ":"@ + decimal(port as nat)
}

/// The address `ip:port` of a printer.
pub fn format_address(ip: &str, port: u16) -> (s: String)
    ensures
        s@ == address_of(ip@, port),
{
    let mut s = String::from_str(ip);
    s.append(":");
    push_decimal(&mut s, port as u64);
    s
}

/// The connection settings of a printer reached over TCP: its address, and
/// how long to wait for the connection and for each write, in milliseconds.
#[derive(Debug, Clone)]
pub struct TcpPrinterTransport {
    address: String,
    connect_timeout_ms: u64,
    write_timeout_ms: u64,
}

impl TcpPrinterTransport {
    /// Settings for `ip:port`, waiting 5 s to connect and 30 s to write.
    pub fn new(ip: &str, port: u16) -> (t: Self)
        ensures
            t.address_view() == address_of(ip@, port),
            t.connect_timeout_view() == 5000,
            t.write_timeout_view() == 30000,
    {
        Self::new_with_timeouts(ip, port, 5000, 30000)
    }

    /// Settings for `ip:port` with the given waits, in milliseconds.
    pub fn new_with_timeouts(ip: &str, port: u16, connect_timeout_ms: u64, write_timeout_ms: u64) -> (t: Self)
        ensures
            t.address_view() == address_of(ip@, port),
            t.connect_timeout_view() == connect_timeout_ms,
            t.write_timeout_view() == write_timeout_ms,
    {
        Self { address: format_address(ip, port), connect_timeout_ms, write_timeout_ms }
    }

    pub closed spec fn address_view(&self) -> Seq<char> {
        self.address@
    }

    pub closed spec fn connect_timeout_view(&self) -> u64 {
        self.connect_timeout_ms
    }

    pub closed spec fn write_timeout_view(&self) -> u64 {
        self.write_timeout_ms
    }

    /// The address to connect to.
    pub fn address(&self) -> (s: &str)
        ensures
            s@ == self.address_view(),
    {
        self.address.as_str()
    }

    /// How long to wait for the connection, in milliseconds.
    pub fn connect_timeout_ms(&self) -> (ms: u64)
        ensures
            ms == self.connect_timeout_view(),
    {
        self.connect_timeout_ms
    }

    /// How long to wait for each write, in milliseconds.
    pub fn write_timeout_ms(&self) -> (ms: u64)
        ensures
            ms == self.write_timeout_view(),
    {
        self.write_timeout_ms
    }
}

} // verus!
