//! Plain data describing voice engines and their speakers.

use vstd::prelude::*;

verus! {

/// A socket address of a voice engine, held as plain values
/// (four IPv4 octets and a port).
#[derive(Debug, Clone, Copy, PartialEq, Eq, Structural)]
pub struct NetAddr {
    pub octet0: u8,
    pub octet1: u8,
    pub octet2: u8,
    pub octet3: u8,
    pub port: u16,
}

impl NetAddr {
    pub fn new(octet0: u8, octet1: u8, octet2: u8, octet3: u8, port: u16) -> (r: NetAddr)
        ensures
            r == (NetAddr { octet0, octet1, octet2, octet3, port }),
    {
        NetAddr { octet0, octet1, octet2, octet3, port }
    }
}

/// One style a voice engine speaker offers.
#[derive(Debug)]
pub struct Style {
    pub name: String,
    pub id: u64,
}

/// One speaker a voice engine reports, with its styles.
#[derive(Debug)]
pub struct Speaker {
    pub name: String,
    pub speaker_uuid: String,
    pub styles: Vec<Style>,
    pub version: String,
}

} // verus!
