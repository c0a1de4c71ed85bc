//! Wire messages of the discovery protocol.
//!
//! A discovery request arrives as a structured text object with three
//! string fields; the reply is a configuration announcement describing
//! the controller's identity and pixel topology. Both are exchanged as
//! text; the codec for them lives in `json`.

use vstd::prelude::*;

verus! {

/// A discovery request received from a controlling application.
///
/// The canonical field casing of this revision of the protocol is
/// `msg_type`; the declared `ip` and `mac` are accepted without being
/// checked against the sender's transport address.
pub struct StartupMessage {
    pub ip: String,
    pub mac: String,
    pub msg_type: String,
}

/// One strip entry of a configuration announcement.
#[allow(non_snake_case)]
pub struct StripConfigPacket {
    pub name: String,
    pub startAddr: i64,
    pub endAddr: i64,
    pub channel: i64,
}

/// The configuration announcement sent in reply to a discovery
/// request. Built fresh for every handshake; never persisted.
#[allow(non_snake_case)]
pub struct ConfigPacket {
    pub name: String,
    pub ip: String,
    pub port: i64,
    pub mac: String,
    pub numStrips: i64,
    pub numAddrs: i64,
    pub strips: Vec<StripConfigPacket>,
}

impl StripConfigPacket {
    /// All announced quantities are non-negative.
    pub open spec fn wf(&self) -> bool {
        0 <= self.startAddr && 0 <= self.endAddr && 0 <= self.channel
    }
}

impl ConfigPacket {
    /// All announced quantities are non-negative.
    pub open spec fn wf(&self) -> bool {
        &&& 0 <= self.port
        &&& 0 <= self.numStrips
        &&& 0 <= self.numAddrs
        &&& forall|i: int| 0 <= i < self.strips@.len() ==> (#[trigger] self.strips@[i]).wf()
    }
}

} // verus!
