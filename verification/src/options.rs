//! Data model: per-option negotiation state, the registry entry for one
//! option, the capability record learned about the peer, and the sets of
//! handshakes still pending.

use std::collections::HashSet;
use vstd::prelude::*;

verus! {

broadcast use vstd::std_specs::hash::group_hash_axioms;

/// One side of an option negotiation. `negotiating` is true while this side
/// has sent a request and still awaits the peer's acknowledgment.
#[derive(Clone, Copy, PartialEq, Eq, Structural, Debug)]
pub struct TelnetOptionPerspective {
    pub enabled: bool,
    pub negotiating: bool,
}

impl Default for TelnetOptionPerspective {
    fn default() -> (r: Self)
        ensures
            !r.enabled,
            !r.negotiating,
    {
        TelnetOptionPerspective { enabled: false, negotiating: false }
    }
}

/// Negotiation state of one tracked option: the remote perspective (the peer
/// enables a feature about itself) and the local one (this process does).
#[derive(Clone, Copy, PartialEq, Eq, Structural, Debug)]
pub struct TelnetOptionState {
    pub remote: TelnetOptionPerspective,
    pub local: TelnetOptionPerspective,
}

impl Default for TelnetOptionState {
    fn default() -> (r: Self)
        ensures
            r == TelnetOptionState::initial(),
    {
        TelnetOptionState {
            remote: TelnetOptionPerspective { enabled: false, negotiating: false },
            local: TelnetOptionPerspective { enabled: false, negotiating: false },
        }
    }
}

impl TelnetOptionState {
    /// The state of an option nothing has happened to yet.
    pub open spec fn initial() -> TelnetOptionState {
        TelnetOptionState {
            remote: TelnetOptionPerspective { enabled: false, negotiating: false },
            local: TelnetOptionPerspective { enabled: false, negotiating: false },
        }
    }
}

/// Registry entry: the negotiation posture of one supported option code.
/// Built once, never mutated afterwards.
#[derive(Clone, Copy, PartialEq, Eq, Structural, Debug)]
pub struct TelnetOption {
    pub allow_local: bool,
    pub allow_remote: bool,
    pub start_local: bool,
    pub start_remote: bool,
}

impl Default for TelnetOption {
    fn default() -> (r: Self)
        ensures
            !r.allow_local,
            !r.allow_remote,
            !r.start_local,
            !r.start_remote,
    {
        TelnetOption {
            allow_local: false,
            allow_remote: false,
            start_local: false,
            start_remote: false,
        }
    }
}

/// The capability record: everything learned about the peer so far.
#[derive(Clone, Debug)]
pub struct TelnetConfig {
    pub client_name: String,
    pub client_version: String,
    pub encoding: String,
    pub color: u8,
    pub width: u16,
    pub height: u16,
    pub oob: bool,
    pub screen_reader: bool,
}

impl TelnetConfig {
    /// The default values of every capability field, stated over views so
    /// that contracts can speak of them.
    pub open spec fn is_default(self) -> bool {
        &&& self.client_name@ == "UNKNOWN"@
        &&& self.client_version@ == "UNKNOWN"@
        &&& self.encoding@ == "ascii"@
        &&& self.color == 0
        &&& self.width == 78
        &&& self.height == 24
        &&& !self.oob
        &&& !self.screen_reader
    }
}

impl Default for TelnetConfig {
    fn default() -> (r: Self)
        ensures
            r.is_default(),
    {
        TelnetConfig {
            client_name: "UNKNOWN".to_owned(),
            client_version: "UNKNOWN".to_owned(),
            encoding: "ascii".to_owned(),
            color: 0,
            width: 78,
            height: 24,
            oob: false,
            screen_reader: false,
        }
    }
}

/// The option codes whose initial negotiation has not settled yet: local
/// requests, remote requests, and terminal-type discovery rounds (encoded as
/// the small integers 0, 1, 2). Entries are removed once and never re-added;
/// all three empty means the initial negotiation is over.
#[derive(Debug)]
pub struct TelnetHandshakes {
    pub local: HashSet<u8>,
    pub remote: HashSet<u8>,
    pub ttype: HashSet<u8>,
}

impl Default for TelnetHandshakes {
    fn default() -> (r: Self)
        ensures
            r.local@ == Set::<u8>::empty(),
            r.remote@ == Set::<u8>::empty(),
            r.ttype@ == Set::<u8>::empty(),
    {
        TelnetHandshakes {
            local: HashSet::new(),
            remote: HashSet::new(),
            ttype: HashSet::new(),
        }
    }
}

impl TelnetHandshakes {
    /// How many handshakes are pending over all three sets.
    pub fn len(&self) -> (n: usize)
        requires
            self.local@.len() + self.remote@.len() + self.ttype@.len() <= usize::MAX,
        ensures
            n == self.local@.len() + self.remote@.len() + self.ttype@.len(),
    {
        self.local.len() + self.remote.len() + self.ttype.len()
    }

    /// Whether every pending handshake has settled.
    pub fn is_empty(&self) -> (r: bool)
        requires
            self.local@.len() + self.remote@.len() + self.ttype@.len() <= usize::MAX,
        ensures
            r == (self.local@.len() == 0 && self.remote@.len() == 0 && self.ttype@.len() == 0),
    {
        self.len() == 0
    }
}

} // verus!
