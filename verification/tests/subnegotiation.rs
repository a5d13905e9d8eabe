use mu_telnet::{
    MuTelnet, OutboundEvent, TelnetOption, TelnetOptionRegistry, NAWS, TTYPE, WILL,
};

fn registry() -> TelnetOptionRegistry {
    let mut reg = TelnetOptionRegistry::new();
    reg.register(
        TTYPE,
        TelnetOption {
            allow_local: false,
            allow_remote: true,
            start_local: false,
            start_remote: true,
        },
    );
    reg.register(
        NAWS,
        TelnetOption {
            allow_local: false,
            allow_remote: true,
            start_local: false,
            start_remote: true,
        },
    );
    reg
}

fn started() -> MuTelnet {
    let mut t = MuTelnet::new(registry());
    t.start();
    t.send_events.clear();
    t
}

fn ttype_reply(text: &str) -> Vec<u8> {
    let mut payload = vec![0u8];
    payload.extend_from_slice(text.as_bytes());
    payload
}

#[test]
fn naws_round_trip() {
    let mut t = started();
    assert!(t.handle_sub(NAWS, vec![0, 80, 0, 24]));
    assert_eq!(t.config().width, 80);
    assert_eq!(t.config().height, 24);
    // The identical payload changes nothing.
    assert!(!t.handle_sub(NAWS, vec![0, 80, 0, 24]));
}

#[test]
fn naws_big_endian_pairs() {
    let mut t = started();
    assert!(t.handle_sub(NAWS, vec![1, 4, 0, 50]));
    assert_eq!(t.config().width, 260);
    assert_eq!(t.config().height, 50);
}

#[test]
fn naws_short_payload_ignored() {
    let mut t = started();
    assert!(!t.handle_sub(NAWS, vec![0, 80]));
    assert_eq!(t.config().width, 78);
    assert_eq!(t.config().height, 24);
}

#[test]
fn naws_disable_resets_dimensions() {
    let mut t = started();
    assert!(!t.receive_negotiate(WILL, NAWS));
    assert!(t.handle_sub(NAWS, vec![0, 80, 0, 50]));
    assert_eq!(t.config().width, 80);
    assert_eq!(t.config().height, 50);
    assert!(t.receive_negotiate(mu_telnet::WONT, NAWS));
    assert_eq!(t.config().width, 78);
    assert_eq!(t.config().height, 24);
}

#[test]
fn unsupported_sub_ignored() {
    let mut t = started();
    assert!(!t.handle_sub(99, vec![0, 80, 0, 24]));
    assert_eq!(t.config().width, 78);
}

#[test]
fn ttype_round0_inference() {
    let mut t = started();
    assert!(!t.receive_negotiate(WILL, TTYPE));
    // The peer agreed: the first round's request is queued.
    assert_eq!(
        t.send_events,
        vec![OutboundEvent::SubNegotiate(TTYPE, vec![1])]
    );
    t.send_events.clear();
    assert!(t.handle_sub(TTYPE, ttype_reply("MUDLET 4.10")));
    assert_eq!(t.config().client_name, "MUDLET");
    assert_eq!(t.config().client_version, "4.10");
    assert!(t.config().color >= 2);
    // A second request went out.
    assert_eq!(
        t.send_events,
        vec![OutboundEvent::SubNegotiate(TTYPE, vec![1])]
    );
}

#[test]
fn ttype_reply_is_trimmed_and_uppercased() {
    let mut t = started();
    t.receive_negotiate(WILL, TTYPE);
    assert!(t.handle_sub(TTYPE, ttype_reply("  mudlet 4.10  ")));
    assert_eq!(t.config().client_name, "MUDLET");
    assert_eq!(t.config().client_version, "4.10");
    assert!(t.config().color >= 2);
}

#[test]
fn ttype_name_without_version() {
    let mut t = started();
    t.receive_negotiate(WILL, TTYPE);
    assert!(t.handle_sub(TTYPE, ttype_reply("PUTTY")));
    assert_eq!(t.config().client_name, "PUTTY");
    assert_eq!(t.config().client_version, "UNKNOWN");
    assert!(t.config().color >= 2);
}

#[test]
fn ttype_unknown_client_no_color() {
    let mut t = started();
    t.receive_negotiate(WILL, TTYPE);
    assert!(t.handle_sub(TTYPE, ttype_reply("SOMETHINGELSE 1.0")));
    assert_eq!(t.config().client_name, "SOMETHINGELSE");
    assert_eq!(t.config().color, 0);
}

#[test]
fn ttype_xterm_suffix_raises_color() {
    let mut t = started();
    t.receive_negotiate(WILL, TTYPE);
    assert!(t.handle_sub(TTYPE, ttype_reply("FOO-256COLOR")));
    assert_eq!(t.config().client_name, "FOO-256COLOR");
    assert!(t.config().color >= 2);
}

#[test]
fn ttype_cycling_termination() {
    let mut t = started();
    t.receive_negotiate(WILL, TTYPE);
    assert!(t.handle_sub(TTYPE, ttype_reply("MUDLET 4.10")));
    t.send_events.clear();
    // The identical string means no extended cycling: discovery ends.
    assert!(!t.handle_sub(TTYPE, ttype_reply("MUDLET 4.10")));
    assert!(t.handshakes_left().ttype.is_empty());
    assert!(t.send_events.is_empty());
}

#[test]
fn ttype_round2_bitmask() {
    let mut t = started();
    t.receive_negotiate(WILL, TTYPE);
    assert!(t.handle_sub(TTYPE, ttype_reply("TINYFUGUE")));
    assert!(t.handle_sub(TTYPE, ttype_reply("XTERM")));
    assert!(t.handle_sub(TTYPE, ttype_reply("MTTS 69")));
    // Bits 1, 4 and 64: ANSI color, UTF-8, screen reader.
    assert_eq!(t.config().encoding, "utf8");
    assert!(t.config().screen_reader);
    assert!(t.config().color >= 2);
    assert!(t.handshakes_left().ttype.is_empty());
}

#[test]
fn ttype_round2_color_bits() {
    let mut t = started();
    t.receive_negotiate(WILL, TTYPE);
    assert!(t.handle_sub(TTYPE, ttype_reply("AAA")));
    assert_eq!(t.config().color, 0);
    assert!(t.handle_sub(TTYPE, ttype_reply("BBB")));
    assert!(t.handle_sub(TTYPE, ttype_reply("MTTS 1")));
    assert_eq!(t.config().color, 1);
}

#[test]
fn ttype_round2_zero_mask_no_effect() {
    let mut t = started();
    t.receive_negotiate(WILL, TTYPE);
    assert!(t.handle_sub(TTYPE, ttype_reply("AAA")));
    assert!(t.handle_sub(TTYPE, ttype_reply("BBB")));
    assert!(t.handle_sub(TTYPE, ttype_reply("MTTS 0")));
    assert_eq!(t.config().encoding, "ascii");
    assert_eq!(t.config().color, 0);
    assert!(!t.config().screen_reader);
}

#[test]
fn ttype_round2_unparsable_no_effect() {
    let mut t = started();
    t.receive_negotiate(WILL, TTYPE);
    assert!(t.handle_sub(TTYPE, ttype_reply("AAA")));
    assert!(t.handle_sub(TTYPE, ttype_reply("BBB")));
    assert!(t.handle_sub(TTYPE, ttype_reply("MTTS NOPE")));
    assert_eq!(t.config().encoding, "ascii");
    assert_eq!(t.config().color, 0);
}

#[test]
fn ttype_malformed_payloads_ignored() {
    let mut t = started();
    t.receive_negotiate(WILL, TTYPE);
    t.send_events.clear();
    // Too short.
    assert!(!t.handle_sub(TTYPE, vec![0]));
    // Wrong marker.
    assert!(!t.handle_sub(TTYPE, vec![1, 65, 66]));
    // Invalid text encoding.
    assert!(!t.handle_sub(TTYPE, vec![0, 0xff, 0xfe]));
    assert_eq!(t.config().client_name, "UNKNOWN");
    assert!(t.send_events.is_empty());
}

#[test]
fn ttype_reply_without_pending_rounds_ignored() {
    let mut reg = TelnetOptionRegistry::new();
    // Terminal-type is allowed but not requested at start: no rounds pend.
    reg.register(
        TTYPE,
        TelnetOption {
            allow_local: false,
            allow_remote: true,
            start_local: false,
            start_remote: false,
        },
    );
    let mut t = MuTelnet::new(reg);
    t.start();
    t.receive_negotiate(WILL, TTYPE);
    assert!(!t.handle_sub(TTYPE, ttype_reply("MUDLET 4.10")));
    assert_eq!(t.config().client_name, "UNKNOWN");
}
