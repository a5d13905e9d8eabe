use mu_telnet::{
    MuTelnet, OutboundEvent, TelnetOption, TelnetOptionRegistry, DO, DONT, NAWS, SGA, TTYPE,
    WILL, WONT,
};

fn registry() -> TelnetOptionRegistry {
    let mut reg = TelnetOptionRegistry::new();
    reg.register(
        TTYPE,
        TelnetOption {
            allow_local: false,
            allow_remote: true,
            start_local: false,
            start_remote: true,
        },
    );
    reg.register(
        NAWS,
        TelnetOption {
            allow_local: false,
            allow_remote: true,
            start_local: false,
            start_remote: true,
        },
    );
    reg.register(
        SGA,
        TelnetOption {
            allow_local: true,
            allow_remote: true,
            start_local: true,
            start_remote: false,
        },
    );
    reg
}

fn started() -> MuTelnet {
    let mut t = MuTelnet::new(registry());
    t.start();
    t.send_events.clear();
    t
}

#[test]
fn it_works() {
    assert_eq!(2 + 2, 4);
}

#[test]
fn start_queues_requests_in_table_order() {
    let mut t = MuTelnet::new(registry());
    t.start();
    assert_eq!(
        t.send_events,
        vec![
            OutboundEvent::Negotiate(WILL, SGA),
            OutboundEvent::Negotiate(DO, TTYPE),
            OutboundEvent::Negotiate(DO, NAWS),
        ]
    );
    let hs = t.handshakes_left();
    assert!(hs.local.contains(&SGA));
    assert!(hs.remote.contains(&TTYPE));
    assert!(hs.remote.contains(&NAWS));
    assert!(hs.ttype.contains(&0) && hs.ttype.contains(&1) && hs.ttype.contains(&2));
    assert_eq!(hs.len(), 6);
}

#[test]
fn unknown_option_refusal() {
    let mut t = MuTelnet::new(registry());
    assert!(!t.receive_negotiate(DO, 199));
    assert_eq!(t.send_events, vec![OutboundEvent::Negotiate(WONT, 199)]);
    assert!(!t.receive_negotiate(WILL, 200));
    assert_eq!(
        t.send_events,
        vec![
            OutboundEvent::Negotiate(WONT, 199),
            OutboundEvent::Negotiate(DONT, 200),
        ]
    );
    // Refusals about options never offered need no reply.
    assert!(!t.receive_negotiate(WONT, 201));
    assert!(!t.receive_negotiate(DONT, 202));
    assert_eq!(t.send_events.len(), 2);
}

#[test]
fn loop_avoidance() {
    let mut t = started();
    // SGA was not requested remotely, so a peer-initiated WILL is accepted.
    assert!(!t.receive_negotiate(WILL, SGA));
    assert_eq!(t.send_events, vec![OutboundEvent::Negotiate(DO, SGA)]);
    // Replaying the WILL for the already-enabled option does nothing.
    assert!(!t.receive_negotiate(WILL, SGA));
    assert_eq!(t.send_events.len(), 1);
}

#[test]
fn will_during_negotiation_needs_no_reply() {
    let mut t = started();
    // NAWS was requested at start (DO), so the peer's WILL is the ack.
    assert!(!t.receive_negotiate(WILL, NAWS));
    assert!(t.send_events.is_empty());
    assert!(!t.handshakes_left().remote.contains(&NAWS));
}

#[test]
fn local_enable_and_disable() {
    let mut t = started();
    // SGA was requested locally at start (WILL), so DO is the ack.
    assert!(!t.receive_negotiate(DO, SGA));
    assert!(t.send_events.is_empty());
    assert!(!t.handshakes_left().local.contains(&SGA));
    // DONT disables it again without a reply.
    assert!(!t.receive_negotiate(DONT, SGA));
    assert!(t.send_events.is_empty());
}

#[test]
fn handshakes_shrink_monotonically() {
    let mut t = MuTelnet::new(registry());
    t.start();
    let mut last = t.handshakes_left().len();
    assert_eq!(last, 6);
    t.receive_negotiate(WILL, NAWS);
    assert!(t.handshakes_left().len() <= last);
    last = t.handshakes_left().len();
    t.receive_negotiate(DO, SGA);
    assert!(t.handshakes_left().len() <= last);
    last = t.handshakes_left().len();
    // A refusal also completes the handshake.
    t.receive_negotiate(WONT, TTYPE);
    assert!(t.handshakes_left().len() <= last);
    last = t.handshakes_left().len();
    // Replays never bring an entry back.
    t.receive_negotiate(WILL, NAWS);
    t.receive_negotiate(DO, SGA);
    assert!(t.handshakes_left().len() <= last);
}

#[test]
fn wont_while_negotiating_completes_handshake() {
    let mut t = started();
    assert!(t.handshakes_left().remote.contains(&NAWS));
    assert!(!t.receive_negotiate(WONT, NAWS));
    assert!(!t.handshakes_left().remote.contains(&NAWS));
    assert!(t.send_events.is_empty());
}

#[test]
fn wont_ttype_clears_pending_rounds() {
    let mut t = started();
    assert!(!t.receive_negotiate(WILL, TTYPE));
    assert!(!t.receive_negotiate(WONT, TTYPE));
    assert!(t.handshakes_left().ttype.is_empty());
}

#[test]
fn handshakes_len_and_is_empty() {
    let t = MuTelnet::new(registry());
    assert_eq!(t.handshakes_left().len(), 0);
    assert!(t.handshakes_left().is_empty());
    let mut t = MuTelnet::new(registry());
    t.start();
    assert!(!t.handshakes_left().is_empty());
}

#[test]
fn config_defaults() {
    let t = MuTelnet::new(registry());
    let c = t.config();
    assert_eq!(c.client_name, "UNKNOWN");
    assert_eq!(c.client_version, "UNKNOWN");
    assert_eq!(c.encoding, "ascii");
    assert_eq!(c.color, 0);
    assert_eq!(c.width, 78);
    assert_eq!(c.height, 24);
    assert!(!c.oob);
    assert!(!c.screen_reader);
}

#[test]
fn registry_lookup_and_overwrite() {
    let mut reg = TelnetOptionRegistry::new();
    assert!(reg.get(SGA).is_none());
    reg.register(
        SGA,
        TelnetOption {
            allow_local: true,
            allow_remote: false,
            start_local: false,
            start_remote: false,
        },
    );
    assert!(reg.get(SGA).unwrap().allow_local);
    assert!(!reg.get(SGA).unwrap().start_local);
    reg.register(
        SGA,
        TelnetOption {
            allow_local: true,
            allow_remote: false,
            start_local: true,
            start_remote: false,
        },
    );
    assert!(reg.get(SGA).unwrap().start_local);
    assert!(reg.get(NAWS).is_none());
}
