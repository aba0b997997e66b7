//! The wire-level constants and pure pieces of network discovery.
//!
//! Discovery broadcasts a fixed vendor query datagram and collects replies
//! within a short window; each responder is then asked for its name and
//! description over a read-only side channel.  The socket work happens in
//! the runtime; the datagram itself and the descriptor shape are specified
//! here.
use vstd::prelude::*;

verus! {

/// How long discovery listens for broadcast replies, in milliseconds.
pub const DISCOVERY_RESPONSE_TIMEOUT_MS: u64 = 100;

/// How long one identity query may take, in milliseconds.
pub const SNMP_RESPONSE_TIMEOUT_MS: u64 = 100;

/// The port the discovery query is broadcast to.
pub const DISCOVERY_PORT: u16 = 3289;

/// The print-service port a resolved responder is addressed on.
pub const DEFAULT_PORT: u16 = 9100;

/// Replies processed per cycle at most, against response floods.
pub const MAX_RESPONSES: usize = 100;

/// Reported by a discovery cycle.
#[derive(Debug, PartialEq, Clone)]
pub enum Error {
    /// Binding or using the discovery socket failed.
    IoError(String),
    /// An identity query failed at the protocol level.
    SnmpError(String),
    /// An identity query did not answer in time.
    TimeoutError,
    /// A responder's answer carried no description.
    NoDescription,
    /// A responder's answer carried no name.
    NoName,
}

/// A fully resolved responder: its name, description and address.  A
/// responder that cannot be fully resolved is excluded, never reported
/// partially.
#[derive(Debug, PartialEq, Clone)]
pub struct Info {
    pub name: String,
    pub description: String,
    pub host: String,
    pub port: u16,
}

/// Mathematical model of a discovery descriptor.
pub struct InfoModel {
    pub name: Seq<char>,
    pub description: Seq<char>,
    pub host: Seq<char>,
    pub port: u16,
}

impl View for Info {
    type V = InfoModel;

    open spec fn view(&self) -> InfoModel {
        InfoModel {
            name: self.name@,
            description: self.description@,
            host: self.host@,
            port: self.port,
        }
    }
}

/// The vendor discovery datagram: the ASCII bytes of "EPSONP" followed by
/// a fixed eight-byte tail.
pub open spec fn discovery_query_spec() -> Seq<u8> {
    seq![0x45u8, 0x50u8, 0x53u8, 0x4fu8, 0x4eu8, 0x50u8, 0u8, 0u8, 0u8, 0x10u8, 0u8, 0u8, 0u8, 0u8]
}

/// Build the discovery datagram.
pub fn discovery_query() -> (r: Vec<u8>)
    ensures
        r@ == discovery_query_spec(),
{
    let mut r: Vec<u8> = Vec::new();
    r.push(0x45);
    r.push(0x50);
    r.push(0x53);
    r.push(0x4f);
    r.push(0x4e);
    r.push(0x50);
    r.push(0x00);
    r.push(0x00);
    r.push(0x00);
    r.push(0x10);
    r.push(0x00);
    r.push(0x00);
    r.push(0x00);
    r.push(0x00);
    proof {
        assert(r@ =~= discovery_query_spec());
    }
    r
}

} // verus!
