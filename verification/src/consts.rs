//! Protocol byte values: negotiation verbs and the option codes the engine
//! tracks or refers to. They carry no behaviour and live here only for naming.

use vstd::prelude::*;

verus! {

pub const NULL: u8 = 0;

pub const BEL: u8 = 7;

pub const CR: u8 = 13;

pub const LF: u8 = 10;

pub const EOR: u8 = 239;

pub const NOP: u8 = 241;

pub const GA: u8 = 249;

/// Negotiation verb: the peer offers to enable an option on its side.
pub const WILL: u8 = 251;

/// Negotiation verb: the peer refuses or revokes an option on its side.
pub const WONT: u8 = 252;

/// Negotiation verb: the peer asks us to enable an option on our side.
pub const DO: u8 = 253;

/// Negotiation verb: the peer asks us to disable an option on our side.
pub const DONT: u8 = 254;

/// Suppress go-ahead.
pub const SGA: u8 = 3;

/// End-of-record marker, used for prompts.
pub const TELOPT_EOR: u8 = 25;

/// Negotiate About Window Size.
pub const NAWS: u8 = 31;

/// The client will not send anything without a line terminator.
pub const LINEMODE: u8 = 34;

/// Mud New-Environ standard.
pub const MNES: u8 = 39;

/// MUD eXtension Protocol.
pub const MXP: u8 = 91;

/// Mud Server Status Protocol.
pub const MSSP: u8 = 70;

/// Compression, version 2. Defined but intentionally disabled.
pub const MCCP2: u8 = 86;

/// Compression, version 3. Defined but intentionally disabled.
pub const MCCP3: u8 = 87;

/// Generic Mud Communication Protocol.
pub const GMCP: u8 = 201;

/// Mud Server Data Protocol.
pub const MSDP: u8 = 69;

/// Terminal Type.
pub const TTYPE: u8 = 24;

} // verus!
