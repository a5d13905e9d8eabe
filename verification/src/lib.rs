//! Option-negotiation engine for a telnet-style text protocol: per-option
//! local/remote negotiation tracking with loop avoidance, terminal-type and
//! window-size capability discovery, and outbound text helpers.

pub mod consts;
pub mod engine;
pub mod events;
pub mod options;
pub mod registry;
pub mod strutil;
pub mod text;

pub use consts::{
    BEL, CR, DO, DONT, EOR, GA, GMCP, LF, LINEMODE, MCCP2, MCCP3, MNES, MSDP, MSSP, MXP, NAWS,
    NOP, NULL, SGA, TELOPT_EOR, TTYPE, WILL, WONT,
};
pub use engine::MuTelnet;
pub use events::OutboundEvent;
pub use options::{
    TelnetConfig, TelnetHandshakes, TelnetOption, TelnetOptionPerspective, TelnetOptionState,
};
pub use registry::{TelnetOptionEntry, TelnetOptionRegistry};
