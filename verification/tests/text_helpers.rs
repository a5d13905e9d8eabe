use mu_telnet::{MuTelnet, OutboundEvent, TelnetOptionRegistry};

fn fresh() -> MuTelnet {
    MuTelnet::new(TelnetOptionRegistry::new())
}

fn data_payload(t: &MuTelnet) -> &[u8] {
    match t.send_events.last() {
        Some(OutboundEvent::Data(p)) => p.as_slice(),
        _ => panic!("expected a data event"),
    }
}

#[test]
fn format_string_normalizes_line_endings() {
    assert_eq!(MuTelnet::format_string("a\r\nb\nc\r"), "a\r\nb\r\nc");
}

#[test]
fn format_string_empty_and_plain() {
    assert_eq!(MuTelnet::format_string(""), "");
    assert_eq!(MuTelnet::format_string("hello"), "hello");
    assert_eq!(MuTelnet::format_string("\n"), "\r\n");
    assert_eq!(MuTelnet::format_string("\r"), "");
}

#[test]
fn send_text_emits_normalized_data() {
    let mut t = fresh();
    t.send_text("a\r\nb\nc\r");
    assert_eq!(data_payload(&t), b"a\r\nb\r\nc");
}

#[test]
fn send_line_terminates_exactly_once() {
    let mut t = fresh();
    t.send_line("x");
    assert_eq!(data_payload(&t), b"x\r\n");
    t.send_line("x\r\n");
    assert_eq!(data_payload(&t), b"x\r\n");
}

#[test]
fn send_line_normalizes_before_terminating() {
    let mut t = fresh();
    t.send_line("a\nb");
    assert_eq!(data_payload(&t), b"a\r\nb\r\n");
}

#[test]
fn send_prompt_matches_send_line() {
    let mut t = fresh();
    t.send_prompt("say> ");
    assert_eq!(data_payload(&t), b"say> \r\n");
}
