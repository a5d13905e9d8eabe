//! The per-connection negotiation engine: consumes decoded negotiation
//! commands and sub-negotiation payloads, tracks per-option state, derives
//! the capability record, and queues outbound events for the caller to
//! drain. Every operation is a synchronous state transition; nothing here
//! performs I/O.

use crate::consts::{DO, DONT, NAWS, TTYPE, WILL, WONT};
use crate::events::{lemma_views_of_push, views_of, EventView, OutboundEvent};
use crate::options::{
    TelnetConfig, TelnetHandshakes, TelnetOption, TelnetOptionPerspective, TelnetOptionState,
};
use crate::registry::{codes_of, TelnetOptionEntry, TelnetOptionRegistry};
use crate::strutil::{
    all_digits, dec_value, ends_with, find_space, first_space, parse_usize, starts_with, str_eq,
    str_ends_with, str_starts_with, trim_of, trim_str, upper_of, upper_str, utf8_to_string,
};
use crate::text::{ensure_crlf, normalize, normalize_str, with_crlf};
use std::collections::HashMap;
use vstd::prelude::*;
use vstd::string::{StrSliceExecFns, StringExecFns};
use vstd::utf8::{decode_utf8, encode_utf8, valid_utf8};

verus! {

broadcast use vstd::std_specs::hash::group_hash_axioms;

/// The negotiation engine for one connection.
pub struct MuTelnet {
    op_state: HashMap<u8, TelnetOptionState>,
    config: TelnetConfig,
    handshakes_left: TelnetHandshakes,
    ttype_count: u8,
    ttype_last: Option<String>,
    telnet_options: TelnetOptionRegistry,
    pub send_events: Vec<OutboundEvent>,
}

/// The negotiation state after the remote side of an option was enabled.
pub open spec fn remote_enabled_state(st: TelnetOptionState) -> TelnetOptionState {
    TelnetOptionState {
        remote: TelnetOptionPerspective { enabled: true, negotiating: false },
        local: st.local,
    }
}

/// The negotiation state after the remote side of an option was disabled.
pub open spec fn remote_disabled_state(st: TelnetOptionState) -> TelnetOptionState {
    TelnetOptionState {
        remote: TelnetOptionPerspective { enabled: false, negotiating: false },
        local: st.local,
    }
}

/// The negotiation state after the local side of an option was enabled.
pub open spec fn local_enabled_state(st: TelnetOptionState) -> TelnetOptionState {
    TelnetOptionState {
        remote: st.remote,
        local: TelnetOptionPerspective { enabled: true, negotiating: false },
    }
}

/// The negotiation state after the local side of an option was disabled.
pub open spec fn local_disabled_state(st: TelnetOptionState) -> TelnetOptionState {
    TelnetOptionState {
        remote: st.remote,
        local: TelnetOptionPerspective { enabled: false, negotiating: false },
    }
}

/// The request payload of one terminal-type discovery round.
pub open spec fn ttype_request_view() -> EventView {
    EventView::SubNegotiate(TTYPE, seq![1u8])
}

/// The negotiation state a registry row is given at session start.
pub open spec fn init_state(option: TelnetOption) -> TelnetOptionState {
    TelnetOptionState {
        remote: TelnetOptionPerspective { enabled: false, negotiating: option.start_remote },
        local: TelnetOptionPerspective { enabled: false, negotiating: option.start_local },
    }
}

/// The codes of the rows whose local side is requested at session start,
/// in table order.
pub open spec fn local_codes(entries: Seq<TelnetOptionEntry>) -> Seq<u8>
    decreases entries.len(),
{
    if entries.len() == 0 {
        Seq::empty()
    } else {
        (if entries[0].option.start_local {
            seq![entries[0].code]
        } else {
            Seq::empty()
        }) + local_codes(entries.skip(1))
    }
}

/// The codes of the rows whose remote side is requested at session start,
/// in table order.
pub open spec fn remote_codes(entries: Seq<TelnetOptionEntry>) -> Seq<u8>
    decreases entries.len(),
{
    if entries.len() == 0 {
        Seq::empty()
    } else {
        (if entries[0].option.start_remote {
            seq![entries[0].code]
        } else {
            Seq::empty()
        }) + remote_codes(entries.skip(1))
    }
}

/// The terminal-type discovery rounds, all pending at session start when
/// discovery is requested.
pub open spec fn ttype_rounds() -> Set<u8> {
    set![0u8, 1u8, 2u8]
}

/// One negotiation event per code, all with the same verb.
pub open spec fn negs(command: u8, codes: Seq<u8>) -> Seq<EventView> {
    codes.map_values(|c: u8| EventView::Negotiate(command, c))
}

/// The tracked states after session start handed each row its initial
/// state, later rows winning.
pub open spec fn start_states(
    base: Map<u8, TelnetOptionState>,
    entries: Seq<TelnetOptionEntry>,
) -> Map<u8, TelnetOptionState>
    decreases entries.len(),
{
    if entries.len() == 0 {
        base
    } else {
        start_states(base, entries.drop_last()).insert(
            entries.last().code,
            init_state(entries.last().option),
        )
    }
}

/// A code no row carries keeps its entry of the base map.
pub proof fn lemma_start_states_untouched(
    base: Map<u8, TelnetOptionState>,
    entries: Seq<TelnetOptionEntry>,
    c: u8,
)
    requires
        !codes_of(entries).contains(c),
    ensures
        start_states(base, entries).contains_key(c) == base.contains_key(c),
        base.contains_key(c) ==> start_states(base, entries)[c] == base[c],
    decreases entries.len(),
{
    if entries.len() > 0 {
        assert(c != entries.last().code) by {
            if c == entries.last().code {
                assert(codes_of(entries)[entries.len() - 1] == c);
            }
        }
        assert(!codes_of(entries.drop_last()).contains(c)) by {
            if codes_of(entries.drop_last()).contains(c) {
                let j = codes_of(entries.drop_last()).index_of(c);
                assert(codes_of(entries)[j] == c);
            }
        }
        lemma_start_states_untouched(base, entries.drop_last(), c);
    }
}

/// When the codes are distinct, each row's code maps to its initial state.
pub proof fn lemma_start_states_row(
    base: Map<u8, TelnetOptionState>,
    entries: Seq<TelnetOptionEntry>,
    j: int,
)
    requires
        0 <= j < entries.len(),
        forall|a: int, b: int|
            0 <= a < b < entries.len() ==> codes_of(entries)[a] != codes_of(entries)[b],
    ensures
        start_states(base, entries).contains_key(entries[j].code),
        start_states(base, entries)[entries[j].code] == init_state(entries[j].option),
    decreases entries.len(),
{
    if j < entries.len() - 1 {
        assert(codes_of(entries)[j] == entries[j].code);
        assert(codes_of(entries)[entries.len() - 1] == entries.last().code);
        assert(entries[j].code != entries.last().code);
        assert forall|a: int, b: int|
            0 <= a < b < entries.drop_last().len() implies codes_of(entries.drop_last())[a]
            != codes_of(entries.drop_last())[b] by {
            assert(codes_of(entries.drop_last())[a] == entries[a].code);
            assert(codes_of(entries.drop_last())[b] == entries[b].code);
            assert(codes_of(entries)[a] == entries[a].code);
            assert(codes_of(entries)[b] == entries[b].code);
        }
        lemma_start_states_row(base, entries.drop_last(), j);
        assert(entries.drop_last()[j] == entries[j]);
    }
}

/// One more row appends its code when its local side starts.
pub proof fn lemma_local_codes_snoc(s: Seq<TelnetOptionEntry>, e: TelnetOptionEntry)
    ensures
        local_codes(s.push(e)) == local_codes(s) + (if e.option.start_local {
            seq![e.code]
        } else {
            Seq::<u8>::empty()
        }),
    decreases s.len(),
{
    let t = s.push(e);
    let tail = (if e.option.start_local {
        seq![e.code]
    } else {
        Seq::<u8>::empty()
    });
    if s.len() == 0 {
        assert(t[0] == e);
        assert(t.skip(1) =~= Seq::<TelnetOptionEntry>::empty());
        assert(local_codes(t) == (if e.option.start_local {
            seq![e.code]
        } else {
            Seq::<u8>::empty()
        }) + local_codes(t.skip(1)));
        assert(local_codes(t) =~= local_codes(s) + tail);
    } else {
        assert(t.skip(1) =~= s.skip(1).push(e));
        lemma_local_codes_snoc(s.skip(1), e);
        let head = (if s[0].option.start_local {
            seq![s[0].code]
        } else {
            Seq::<u8>::empty()
        });
        assert(t[0] == s[0]);
        assert(local_codes(t) == head + (local_codes(s.skip(1)) + tail));
        assert(local_codes(s) == head + local_codes(s.skip(1)));
        assert(head + (local_codes(s.skip(1)) + tail) =~= (head + local_codes(s.skip(1))) + tail);
    }
}

/// One more row appends its code when its remote side starts.
pub proof fn lemma_remote_codes_snoc(s: Seq<TelnetOptionEntry>, e: TelnetOptionEntry)
    ensures
        remote_codes(s.push(e)) == remote_codes(s) + (if e.option.start_remote {
            seq![e.code]
        } else {
            Seq::<u8>::empty()
        }),
    decreases s.len(),
{
    let t = s.push(e);
    let tail = (if e.option.start_remote {
        seq![e.code]
    } else {
        Seq::<u8>::empty()
    });
    if s.len() == 0 {
        assert(t[0] == e);
        assert(t.skip(1) =~= Seq::<TelnetOptionEntry>::empty());
        assert(remote_codes(t) == (if e.option.start_remote {
            seq![e.code]
        } else {
            Seq::<u8>::empty()
        }) + remote_codes(t.skip(1)));
        assert(remote_codes(t) =~= remote_codes(s) + tail);
    } else {
        assert(t.skip(1) =~= s.skip(1).push(e));
        lemma_remote_codes_snoc(s.skip(1), e);
        let head = (if s[0].option.start_remote {
            seq![s[0].code]
        } else {
            Seq::<u8>::empty()
        });
        assert(t[0] == s[0]);
        assert(remote_codes(t) == head + (remote_codes(s.skip(1)) + tail));
        assert(remote_codes(s) == head + remote_codes(s.skip(1)));
        assert(head + (remote_codes(s.skip(1)) + tail) =~= (head + remote_codes(s.skip(1)))
            + tail);
    }
}

/// The refusal owed to a negotiation verb about an unsupported option:
/// an offer is answered, a refusal needs no answer.
pub open spec fn refusal_of(command: u8) -> Option<u8> {
    if command == WILL {
        Some(DONT)
    } else if command == DO {
        Some(WONT)
    } else {
        None
    }
}

/// The client names known to support at least 256-color output.
pub open spec fn known_color_client(n: Seq<char>) -> bool {
    ||| n == "ATLANTIS"@
    ||| n == "CMUD"@
    ||| n == "KILDCLIENT"@
    ||| n == "MUDLET"@
    ||| n == "MUSHCLIENT"@
    ||| n == "PUTTY"@
    ||| n == "BEIP"@
    ||| n == "POTATO"@
    ||| n == "TINYFUGUE"@
}

/// A terminal-emulator hint in a terminal-type string: an XTERM family
/// prefix or a 256-color suffix.
pub open spec fn term_hint(n: Seq<char>) -> bool {
    starts_with(n, "XTERM"@) || ends_with(n, "-256COLOR"@)
}

/// The name part of a round-0 reply: everything before the first space
/// (the whole string when there is none).
pub open spec fn name_of(u: Seq<char>) -> Seq<char> {
    u.take(first_space(u))
}

/// Whether a round-0 reply carries a version part after the name.
pub open spec fn has_version(u: Seq<char>) -> bool {
    first_space(u) < u.len()
}

/// The version part of a round-0 reply: everything after the first space.
pub open spec fn version_of(u: Seq<char>) -> Seq<char> {
    u.skip(first_space(u) + 1)
}

/// How the first terminal-type reply changes the capability record: the
/// client name and version are read off, and well-known clients or
/// terminal-emulator hints raise the color depth to at least 2.
pub open spec fn ttype0_caps(pre: TelnetConfig, post: TelnetConfig, u: Seq<char>) -> bool {
    &&& post.client_name@ == name_of(u)
    &&& post.client_version@ == (if has_version(u) {
        version_of(u)
    } else {
        pre.client_version@
    })
    &&& post.color == (if (known_color_client(name_of(u)) || term_hint(name_of(u)))
        && pre.color < 2 {
        2u8
    } else {
        pre.color
    })
    &&& post.encoding == pre.encoding
    &&& post.width == pre.width
    &&& post.height == pre.height
    &&& post.oob == pre.oob
    &&& post.screen_reader == pre.screen_reader
}

/// How the second terminal-type reply changes the capability record: only
/// a terminal-emulator hint matters, raising the color depth.
pub open spec fn ttype1_caps(pre: TelnetConfig, post: TelnetConfig, u: Seq<char>) -> bool {
    &&& post.color == (if term_hint(u) && pre.color < 2 {
        2u8
    } else {
        pre.color
    })
    &&& post.client_name == pre.client_name
    &&& post.client_version == pre.client_version
    &&& post.encoding == pre.encoding
    &&& post.width == pre.width
    &&& post.height == pre.height
    &&& post.oob == pre.oob
    &&& post.screen_reader == pre.screen_reader
}

/// How a capability bitmask changes the capability record: each set bit
/// acts independently; bits this record does not surface are accepted and
/// ignored.
pub open spec fn mtts_caps(pre: TelnetConfig, post: TelnetConfig, m: usize) -> bool {
    let c1 = (if m & 1 == 1 && pre.color < 1 {
        1u8
    } else {
        pre.color
    });
    let c2 = (if m & 8 == 8 && c1 < 2 {
        2u8
    } else {
        c1
    });
    &&& post.color == c2
    &&& post.encoding@ == (if m & 4 == 4 {
        "utf8"@
    } else {
        pre.encoding@
    })
    &&& post.screen_reader == (pre.screen_reader || m & 64 == 64)
    &&& post.client_name == pre.client_name
    &&& post.client_version == pre.client_version
    &&& post.width == pre.width
    &&& post.height == pre.height
    &&& post.oob == pre.oob
}

/// Whether a round-2 reply carries a usable bitmask: the marker, then a
/// non-empty digit string whose non-zero value fits the machine.
pub open spec fn mtts_usable(u: Seq<char>) -> bool {
    &&& starts_with(u, "MTTS "@)
    &&& u.skip(5).len() > 0
    &&& all_digits(u.skip(5))
    &&& dec_value(u.skip(5)) <= usize::MAX
    &&& dec_value(u.skip(5)) != 0
}

/// The characters a terminal-type reply payload denotes: the bytes after
/// the marker, decoded, trimmed and upper-cased.
pub open spec fn norm_of(bytes: Seq<u8>) -> Seq<char> {
    upper_of(trim_of(decode_utf8(bytes)))
}

impl MuTelnet {
    /// The transition one normalized terminal-type reply string `u` makes,
    /// by round: round 0 learns name, version and color and asks again;
    /// a repeated string ends discovery; round 1 reads terminal hints;
    /// round 2 reads the capability bitmask and ends discovery.
    pub open spec fn ttype_text_step(pre: MuTelnet, post: MuTelnet, u: Seq<char>, r: bool) -> bool {
        if pre.round() == 0 {
            &&& r == true
            &&& (post.last_reply() matches Some(l) && l@ == u)
            &&& ttype0_caps(pre.caps(), post.caps(), u)
            &&& post.round() == 1
            &&& post.pending_ttype() == pre.pending_ttype().remove(0)
            &&& post.pending_local() == pre.pending_local()
            &&& post.pending_remote() == pre.pending_remote()
            &&& post.states() == pre.states()
            &&& post.registry() == pre.registry()
            &&& post.events() == pre.events().push(ttype_request_view())
        } else if pre.round() == 1 || pre.round() == 2 {
            match pre.last_reply() {
                None => r == false && post == pre,
                Some(l) => {
                    if l@ == u {
                        // The peer cycled back: discovery is over.
                        &&& r == false
                        &&& post.caps() == pre.caps()
                        &&& post.pending_ttype() == Set::<u8>::empty()
                        &&& post.last_reply() is None
                        &&& post.round() == pre.round()
                        &&& post.pending_local() == pre.pending_local()
                        &&& post.pending_remote() == pre.pending_remote()
                        &&& post.states() == pre.states()
                        &&& post.registry() == pre.registry()
                        &&& post.events() == pre.events()
                    } else if pre.round() == 1 {
                        &&& r == true
                        &&& ttype1_caps(pre.caps(), post.caps(), u)
                        &&& (post.last_reply() matches Some(l2) && l2@ == u)
                        &&& post.round() == 2
                        &&& post.pending_ttype() == pre.pending_ttype().remove(1)
                        &&& post.pending_local() == pre.pending_local()
                        &&& post.pending_remote() == pre.pending_remote()
                        &&& post.states() == pre.states()
                        &&& post.registry() == pre.registry()
                        &&& post.events() == pre.events()
                    } else {
                        &&& r == true
                        &&& (if mtts_usable(u) {
                            mtts_caps(pre.caps(), post.caps(), dec_value(u.skip(5)) as usize)
                        } else {
                            post.caps() == pre.caps()
                        })
                        &&& post.last_reply() is None
                        &&& post.pending_ttype() == Set::<u8>::empty()
                        &&& post.round() == pre.round()
                        &&& post.pending_local() == pre.pending_local()
                        &&& post.pending_remote() == pre.pending_remote()
                        &&& post.states() == pre.states()
                        &&& post.registry() == pre.registry()
                        &&& post.events() == pre.events()
                    }
                },
            }
        } else {
            r == false && post == pre
        }
    }

    /// The tracked per-option negotiation states.
    pub closed spec fn states(self) -> Map<u8, TelnetOptionState> {
        self.op_state@
    }

    /// The capability record.
    pub closed spec fn caps(self) -> TelnetConfig {
        self.config
    }

    /// The option codes whose local-enable request is still pending.
    pub closed spec fn pending_local(self) -> Set<u8> {
        self.handshakes_left.local@
    }

    /// The option codes whose remote-enable request is still pending.
    pub closed spec fn pending_remote(self) -> Set<u8> {
        self.handshakes_left.remote@
    }

    /// The terminal-type discovery rounds still pending.
    pub closed spec fn pending_ttype(self) -> Set<u8> {
        self.handshakes_left.ttype@
    }

    /// The terminal-type round counter.
    pub closed spec fn round(self) -> u8 {
        self.ttype_count
    }

    /// The terminal-type string remembered from the previous round.
    pub closed spec fn last_reply(self) -> Option<String> {
        self.ttype_last
    }

    /// The option registry this engine was built over.
    pub closed spec fn registry(self) -> TelnetOptionRegistry {
        self.telnet_options
    }

    /// The views of the queued outbound events.
    pub closed spec fn events(self) -> Seq<EventView> {
        views_of(self.send_events@)
    }

    /// Well-formedness: the registry is a proper table and the round
    /// counter only takes values reachable by sequential advancement.
    pub open spec fn wf(self) -> bool {
        &&& self.registry().wf()
        &&& self.round() <= 2
    }

    /// Everything except the outbound queue is unchanged.
    pub open spec fn same_but_events(pre: MuTelnet, post: MuTelnet) -> bool {
        &&& post.states() == pre.states()
        &&& post.caps() == pre.caps()
        &&& post.pending_local() == pre.pending_local()
        &&& post.pending_remote() == pre.pending_remote()
        &&& post.pending_ttype() == pre.pending_ttype()
        &&& post.round() == pre.round()
        &&& post.last_reply() == pre.last_reply()
        &&& post.registry() == pre.registry()
    }

    /// The full transition `receive_negotiate` makes for one verb about one
    /// option, relating the state before (`pre`) to the state after
    /// (`post`) and to the returned change report `r`.
    pub open spec fn negotiate_step(pre: MuTelnet, post: MuTelnet, command: u8, op: u8, r: bool) -> bool {
        if !pre.states().contains_key(op) {
            // Unsupported option: refuse offers, ignore refusals.
            &&& r == false
            &&& Self::same_but_events(pre, post)
            &&& (match refusal_of(command) {
                Some(c) => post.events() == pre.events().push(EventView::Negotiate(c, op)),
                None => post.events() == pre.events(),
            })
        } else {
            let st = pre.states()[op];
            if command == WILL {
                if st.remote.enabled {
                    // Loop avoidance: an already-enabled option is not
                    // re-acknowledged.
                    &&& r == false
                    &&& post == pre
                } else {
                    &&& r == false
                    &&& post.states() == pre.states().insert(op, remote_enabled_state(st))
                    &&& post.pending_remote() == pre.pending_remote().remove(op)
                    &&& post.pending_local() == pre.pending_local()
                    &&& post.pending_ttype() == pre.pending_ttype()
                    &&& post.caps() == pre.caps()
                    &&& post.round() == pre.round()
                    &&& post.last_reply() == pre.last_reply()
                    &&& post.registry() == pre.registry()
                    &&& post.events() == pre.events() + (if !st.remote.negotiating {
                        seq![EventView::Negotiate(DO, op)]
                    } else {
                        Seq::empty()
                    }) + (if op == TTYPE {
                        seq![ttype_request_view()]
                    } else {
                        Seq::empty()
                    })
                }
            } else if command == WONT {
                &&& r == (st.remote.enabled && op == NAWS)
                &&& post.states() == pre.states().insert(op, remote_disabled_state(st))
                &&& post.pending_remote() == (if st.remote.negotiating {
                    pre.pending_remote().remove(op)
                } else {
                    pre.pending_remote()
                })
                &&& post.pending_local() == pre.pending_local()
                &&& post.pending_ttype() == (if st.remote.enabled && op == TTYPE {
                    Set::<u8>::empty()
                } else {
                    pre.pending_ttype()
                })
                &&& post.caps() == (if st.remote.enabled && op == NAWS {
                    (TelnetConfig { width: 78, height: 24, ..pre.caps() })
                } else {
                    pre.caps()
                })
                &&& post.round() == pre.round()
                &&& post.last_reply() == pre.last_reply()
                &&& post.registry() == pre.registry()
                &&& post.events() == pre.events()
            } else if command == DO {
                if st.local.enabled {
                    &&& r == false
                    &&& post == pre
                } else {
                    &&& r == false
                    &&& post.states() == pre.states().insert(op, local_enabled_state(st))
                    &&& post.pending_local() == pre.pending_local().remove(op)
                    &&& post.pending_remote() == pre.pending_remote()
                    &&& post.pending_ttype() == pre.pending_ttype()
                    &&& post.caps() == pre.caps()
                    &&& post.round() == pre.round()
                    &&& post.last_reply() == pre.last_reply()
                    &&& post.registry() == pre.registry()
                    &&& post.events() == pre.events() + (if !st.local.negotiating {
                        seq![EventView::Negotiate(WILL, op)]
                    } else {
                        Seq::empty()
                    })
                }
            } else if command == DONT {
                &&& r == false
                &&& post.states() == pre.states().insert(op, local_disabled_state(st))
                &&& post.pending_local() == (if st.local.negotiating {
                    pre.pending_local().remove(op)
                } else {
                    pre.pending_local()
                })
                &&& post.pending_remote() == pre.pending_remote()
                &&& post.pending_ttype() == pre.pending_ttype()
                &&& post.caps() == pre.caps()
                &&& post.round() == pre.round()
                &&& post.last_reply() == pre.last_reply()
                &&& post.registry() == pre.registry()
                &&& post.events() == pre.events()
            } else {
                &&& r == false
                &&& post == pre
            }
        }
    }

    /// A fresh engine over an option registry: default capabilities, no
    /// tracked options, nothing pending, an empty outbound queue.
    pub fn new(telnet_options: TelnetOptionRegistry) -> (r: Self)
        requires
            telnet_options.wf(),
        ensures
            r.wf(),
            r.registry() == telnet_options,
            r.states() == Map::<u8, TelnetOptionState>::empty(),
            r.caps().is_default(),
            r.pending_local() == Set::<u8>::empty(),
            r.pending_remote() == Set::<u8>::empty(),
            r.pending_ttype() == Set::<u8>::empty(),
            r.round() == 0,
            r.last_reply() is None,
            r.events() == Seq::<EventView>::empty(),
    {
        let r = MuTelnet {
            op_state: HashMap::new(),
            config: TelnetConfig::default(),
            handshakes_left: TelnetHandshakes::default(),
            ttype_count: 0,
            ttype_last: None,
            telnet_options,
            send_events: Vec::new(),
        };
        proof {
            assert(r.events() =~= Seq::<EventView>::empty());
        }
        r
    }

    /// Read-only access to the capability record.
    pub fn config(&self) -> (r: &TelnetConfig)
        ensures
            *r == self.caps(),
    {
        &self.config
    }

    /// Read-only access to the pending handshakes.
    pub fn handshakes_left(&self) -> (r: &TelnetHandshakes)
        ensures
            r.local@ == self.pending_local(),
            r.remote@ == self.pending_remote(),
            r.ttype@ == self.pending_ttype(),
    {
        &self.handshakes_left
    }

    /// Opens the session: every registry row is given its initial tracked
    /// state; rows marked to start queue their request (`WILL` for the
    /// local side, `DO` for the remote side, in table order, all `WILL`s
    /// first) and are recorded as pending handshakes. Called once, at
    /// session start.
    pub fn start(&mut self)
        requires
            old(self).wf(),
        ensures
            final(self).wf(),
            final(self).registry() == old(self).registry(),
            final(self).caps() == old(self).caps(),
            final(self).round() == old(self).round(),
            final(self).last_reply() == old(self).last_reply(),
            final(self).pending_ttype() == old(self).pending_ttype().union(
                if remote_codes(old(self).registry().entries()).contains(TTYPE) {
                    ttype_rounds()
                } else {
                    Set::<u8>::empty()
                },
            ),
            final(self).states() == start_states(
                old(self).states(),
                old(self).registry().entries(),
            ),
            forall|c: u8|
                old(self).registry().spec_contains(c) ==> final(self).states().contains_key(c)
                    && final(self).states()[c] == init_state(old(self).registry().spec_get(c)),
            forall|c: u8|
                !old(self).registry().spec_contains(c) ==> final(self).states().contains_key(c)
                    == old(self).states().contains_key(c) && (old(self).states().contains_key(c)
                    ==> final(self).states()[c] == old(self).states()[c]),
            final(self).pending_local() == old(self).pending_local().union(
                local_codes(old(self).registry().entries()).to_set(),
            ),
            final(self).pending_remote() == old(self).pending_remote().union(
                remote_codes(old(self).registry().entries()).to_set(),
            ),
            final(self).events() == old(self).events() + negs(
                WILL,
                local_codes(old(self).registry().entries()),
            ) + negs(DO, remote_codes(old(self).registry().entries())),
    {
        let ghost entries = old(self).registry().entries();
        let n = self.telnet_options.count();
        let mut start_local: Vec<u8> = Vec::new();
        let mut start_remote: Vec<u8> = Vec::new();
        for i in 0..n
            invariant
                n == entries.len(),
                entries == self.telnet_options.entries(),
                old(self).wf(),
                self.telnet_options == old(self).telnet_options,
                self.config == old(self).config,
                self.ttype_count == old(self).ttype_count,
                self.ttype_last == old(self).ttype_last,
                self.send_events@ == old(self).send_events@,
                self.handshakes_left.ttype@ == old(self).handshakes_left.ttype@.union(
                    if remote_codes(entries.take(i as int)).contains(TTYPE) {
                        ttype_rounds()
                    } else {
                        Set::<u8>::empty()
                    },
                ),
                start_local@ == local_codes(entries.take(i as int)),
                start_remote@ == remote_codes(entries.take(i as int)),
                self.handshakes_left.local@ == old(self).handshakes_left.local@.union(
                    start_local@.to_set(),
                ),
                self.handshakes_left.remote@ == old(self).handshakes_left.remote@.union(
                    start_remote@.to_set(),
                ),
                self.op_state@ == start_states(old(self).op_state@, entries.take(i as int)),
        {
            let entry = self.telnet_options.entry_at(i);
            self.op_state.insert(
                entry.code,
                TelnetOptionState {
                    remote: TelnetOptionPerspective {
                        enabled: false,
                        negotiating: entry.option.start_remote,
                    },
                    local: TelnetOptionPerspective {
                        enabled: false,
                        negotiating: entry.option.start_local,
                    },
                },
            );
            proof {
                assert(entries.take(i + 1).drop_last() =~= entries.take(i as int));
                assert(entries.take(i + 1).last() == entries[i as int]);
                assert(self.op_state@ == start_states(
                    old(self).op_state@,
                    entries.take(i + 1),
                ));
                assert(entries.take(i + 1) =~= entries.take(i as int).push(entries[i as int]));
                lemma_local_codes_snoc(entries.take(i as int), entries[i as int]);
                lemma_remote_codes_snoc(entries.take(i as int), entries[i as int]);
                assert(codes_of(entries.take(i + 1)) =~= codes_of(entries.take(i as int)).push(
                    entries[i as int].code,
                ));
            }
            if entry.option.start_remote {
                self.handshakes_left.remote.insert(entry.code);
                if entry.code == TTYPE {
                    self.handshakes_left.ttype.insert(0);
                    self.handshakes_left.ttype.insert(1);
                    self.handshakes_left.ttype.insert(2);
                    proof {
                        assert(remote_codes(entries.take(i + 1)).contains(TTYPE)) by {
                            let rc1 = remote_codes(entries.take(i + 1));
                            assert(rc1[rc1.len() - 1] == TTYPE);
                        }
                        assert(self.handshakes_left.ttype@ =~= old(
                            self,
                        ).handshakes_left.ttype@.union(ttype_rounds()));
                    }
                }
                proof {
                    start_remote@.lemma_push_to_set_commute(entry.code);
                    assert(old(self).handshakes_left.remote@.union(
                        start_remote@.to_set(),
                    ).insert(entry.code) =~= old(self).handshakes_left.remote@.union(
                        start_remote@.push(entry.code).to_set(),
                    ));
                    assert(local_codes(entries.take(i + 1)) =~= local_codes(
                        entries.take(i as int),
                    ) + (if entries[i as int].option.start_local {
                        seq![entries[i as int].code]
                    } else {
                        Seq::<u8>::empty()
                    }));
                }
                start_remote.push(entry.code);
            }
            if entry.option.start_local {
                self.handshakes_left.local.insert(entry.code);
                proof {
                    start_local@.lemma_push_to_set_commute(entry.code);
                    assert(old(self).handshakes_left.local@.union(start_local@.to_set()).insert(
                        entry.code,
                    ) =~= old(self).handshakes_left.local@.union(
                        start_local@.push(entry.code).to_set(),
                    ));
                }
                start_local.push(entry.code);
            }
            proof {
                assert(start_local@ =~= local_codes(entries.take(i + 1)));
                assert(start_remote@ =~= remote_codes(entries.take(i + 1)));
                if !entries[i as int].option.start_remote {
                    assert(self.handshakes_left.remote@ =~= old(
                        self,
                    ).handshakes_left.remote@.union(start_remote@.to_set()));
                }
                if !entries[i as int].option.start_local {
                    assert(self.handshakes_left.local@ =~= old(self).handshakes_left.local@.union(
                        start_local@.to_set(),
                    ));
                }
                if !(entries[i as int].option.start_remote && entries[i as int].code == TTYPE) {
                    let rc1 = remote_codes(entries.take(i + 1));
                    let rc0 = remote_codes(entries.take(i as int));
                    assert(rc1.contains(TTYPE) == rc0.contains(TTYPE)) by {
                        if entries[i as int].option.start_remote {
                            if rc0.contains(TTYPE) {
                                let j = rc0.index_of(TTYPE);
                                assert(rc1[j] == TTYPE);
                            }
                            if rc1.contains(TTYPE) {
                                let j = rc1.index_of(TTYPE);
                                if j < rc0.len() {
                                    assert(rc0[j] == TTYPE);
                                } else {
                                    assert(rc1[j] == entries[i as int].code);
                                }
                            }
                        } else {
                            assert(rc0 + Seq::<u8>::empty() =~= rc0);
                        }
                    }
                }
            }
        }
        proof {
            assert(entries.take(n as int) =~= entries);
        }
        let ghost snap = *self;
        let m = start_local.len();
        for k in 0..m
            invariant
                m == start_local@.len(),
                start_local@ == local_codes(entries),
                self.op_state@ == snap.op_state@,
                self.config == snap.config,
                self.handshakes_left.local@ == snap.handshakes_left.local@,
                self.handshakes_left.remote@ == snap.handshakes_left.remote@,
                self.handshakes_left.ttype@ == snap.handshakes_left.ttype@,
                self.ttype_count == snap.ttype_count,
                self.ttype_last == snap.ttype_last,
                self.telnet_options == snap.telnet_options,
                views_of(self.send_events@) == views_of(snap.send_events@) + negs(
                    WILL,
                    start_local@.take(k as int),
                ),
        {
            let c = start_local[k];
            let ev = OutboundEvent::Negotiate(WILL, c);
            proof {
                lemma_views_of_push(self.send_events@, ev);
                assert(start_local@.take(k + 1) =~= start_local@.take(k as int).push(c));
                assert(negs(WILL, start_local@.take(k + 1)) =~= negs(
                    WILL,
                    start_local@.take(k as int),
                ).push(ev@));
                assert(views_of(snap.send_events@) + negs(WILL, start_local@.take(k + 1)) =~= (
                views_of(snap.send_events@) + negs(WILL, start_local@.take(k as int))).push(ev@));
            }
            self.send_events.push(ev);
        }
        proof {
            assert(start_local@.take(m as int) =~= start_local@);
        }
        let ghost snap2 = *self;
        let m2 = start_remote.len();
        for k in 0..m2
            invariant
                m2 == start_remote@.len(),
                start_remote@ == remote_codes(entries),
                self.op_state@ == snap2.op_state@,
                self.config == snap2.config,
                self.handshakes_left.local@ == snap2.handshakes_left.local@,
                self.handshakes_left.remote@ == snap2.handshakes_left.remote@,
                self.handshakes_left.ttype@ == snap2.handshakes_left.ttype@,
                self.ttype_count == snap2.ttype_count,
                self.ttype_last == snap2.ttype_last,
                self.telnet_options == snap2.telnet_options,
                views_of(self.send_events@) == views_of(snap2.send_events@) + negs(
                    DO,
                    start_remote@.take(k as int),
                ),
        {
            let c = start_remote[k];
            let ev = OutboundEvent::Negotiate(DO, c);
            proof {
                lemma_views_of_push(self.send_events@, ev);
                assert(start_remote@.take(k + 1) =~= start_remote@.take(k as int).push(c));
                assert(negs(DO, start_remote@.take(k + 1)) =~= negs(
                    DO,
                    start_remote@.take(k as int),
                ).push(ev@));
                assert(views_of(snap2.send_events@) + negs(DO, start_remote@.take(k + 1)) =~= (
                views_of(snap2.send_events@) + negs(DO, start_remote@.take(k as int))).push(ev@));
            }
            self.send_events.push(ev);
        }
        proof {
            assert(start_remote@.take(m2 as int) =~= start_remote@);
            assert forall|c: u8|
                old(self).registry().spec_contains(c) implies self.op_state@.contains_key(c)
                && self.op_state@[c] == init_state(old(self).registry().spec_get(c)) by {
                old(self).registry().lemma_contains_index(c);
                let j = old(self).registry().index_of(c);
                assert(entries[j].code == c);
                old(self).registry().lemma_index_unique(c, j);
                assert(old(self).registry().spec_get(c) == entries[j].option);
                lemma_start_states_row(old(self).op_state@, entries, j);
            }
            assert forall|c: u8|
                !old(self).registry().spec_contains(c) implies self.op_state@.contains_key(c)
                == old(self).op_state@.contains_key(c) && (old(self).op_state@.contains_key(c)
                ==> self.op_state@[c] == old(self).op_state@[c]) by {
                lemma_start_states_untouched(old(self).op_state@, entries, c);
            }
        }
    }

    /// Queues one terminal-type request: a sub-negotiation payload holding
    /// the single marker byte that asks the peer to send its value.
    fn request_ttype(&mut self)
        ensures
            Self::same_but_events(*old(self), *final(self)),
            final(self).events() == old(self).events().push(ttype_request_view()),
    {
        let mut payload: Vec<u8> = Vec::new();
        payload.push(1);
        let ev = OutboundEvent::SubNegotiate(TTYPE, payload);
        proof {
            assert(ev@ == ttype_request_view()) by {
                assert(ev@ matches EventView::SubNegotiate(o, p) && p =~= seq![1u8]);
            }
            lemma_views_of_push(self.send_events@, ev);
        }
        self.send_events.push(ev);
    }

    /// Side effects of an option becoming remote-enabled: terminal-type
    /// starts its first discovery round; nothing else reacts.
    fn enable_remote(&mut self, op: u8) -> (changed: bool)
        ensures
            changed == false,
            Self::same_but_events(*old(self), *final(self)),
            final(self).events() == old(self).events() + (if op == TTYPE {
                seq![ttype_request_view()]
            } else {
                Seq::<EventView>::empty()
            }),
    {
        if op == TTYPE {
            self.request_ttype();
            proof {
                assert(old(self).events() + seq![ttype_request_view()] =~= old(
                    self,
                ).events().push(ttype_request_view()));
            }
        } else {
            proof {
                assert(self.events() =~= self.events() + Seq::<EventView>::empty());
            }
        }
        false
    }

    /// Side effects of an option becoming remote-disabled: window-size
    /// resets the dimensions to their defaults and reports a change;
    /// terminal-type abandons its pending rounds; nothing else reacts.
    fn disable_remote(&mut self, op: u8) -> (changed: bool)
        ensures
            changed == (op == NAWS),
            final(self).states() == old(self).states(),
            final(self).pending_local() == old(self).pending_local(),
            final(self).pending_remote() == old(self).pending_remote(),
            final(self).pending_ttype() == (if op == TTYPE {
                Set::<u8>::empty()
            } else {
                old(self).pending_ttype()
            }),
            final(self).caps() == (if op == NAWS {
                (TelnetConfig { width: 78, height: 24, ..old(self).caps() })
            } else {
                old(self).caps()
            }),
            final(self).round() == old(self).round(),
            final(self).last_reply() == old(self).last_reply(),
            final(self).registry() == old(self).registry(),
            final(self).events() == old(self).events(),
    {
        if op == NAWS {
            self.config.width = 78;
            self.config.height = 24;
            return true;
        }
        if op == TTYPE {
            self.handshakes_left.ttype.clear();
        }
        false
    }

    /// Side effects of an option becoming local-enabled: none of the
    /// currently supported options react.
    fn enable_local(&mut self, op: u8) -> (changed: bool)
        ensures
            changed == false,
            *final(self) == *old(self),
    {
        false
    }

    /// Side effects of an option becoming local-disabled: none of the
    /// currently supported options react.
    fn disable_local(&mut self, op: u8) -> (changed: bool)
        ensures
            changed == false,
            *final(self) == *old(self),
    {
        false
    }

    /// Consumes one negotiation verb about one option and replies as the
    /// protocol demands. Returns whether the capability record changed.
    ///
    /// An already-settled option is never re-acknowledged, an unsupported
    /// option is refused with the matching verb, and the pending-handshake
    /// sets only ever shrink.
    pub fn receive_negotiate(&mut self, command: u8, op: u8) -> (changed: bool)
        requires
            old(self).wf(),
        ensures
            final(self).wf(),
            Self::negotiate_step(*old(self), *final(self), command, op, changed),
            // Loop avoidance: a repeated offer for an enabled option does
            // nothing at all.
            command == WILL && old(self).states().contains_key(op) && old(
                self,
            ).states()[op].remote.enabled ==> changed == false && *final(self) == *old(self),
            // Unsupported options draw exactly the matching refusal.
            !old(self).states().contains_key(op) && command == WILL ==> final(self).events()
                == old(self).events().push(EventView::Negotiate(DONT, op)),
            !old(self).states().contains_key(op) && command == DO ==> final(self).events() == old(
                self,
            ).events().push(EventView::Negotiate(WONT, op)),
            // The pending-handshake sets never grow.
            final(self).pending_local().subset_of(old(self).pending_local()),
            final(self).pending_remote().subset_of(old(self).pending_remote()),
            final(self).pending_ttype().subset_of(old(self).pending_ttype()),
    {
        let st_opt: Option<TelnetOptionState> = match self.op_state.get(&op) {
            Some(s) => Some(*s),
            None => None,
        };
        let mut changed = false;
        match st_opt {
            Some(state) => {
                if command == WILL {
                    if !state.remote.enabled {
                        let was_negotiating = state.remote.negotiating;
                        self.op_state.insert(
                            op,
                            TelnetOptionState {
                                remote: TelnetOptionPerspective {
                                    enabled: true,
                                    negotiating: false,
                                },
                                local: state.local,
                            },
                        );
                        self.handshakes_left.remote.remove(&op);
                        if !was_negotiating {
                            let ev = OutboundEvent::Negotiate(DO, op);
                            proof {
                                lemma_views_of_push(self.send_events@, ev);
                            }
                            self.send_events.push(ev);
                        }
                        let ghost mid = self.events();
                        changed = self.enable_remote(op);
                        proof {
                            if was_negotiating {
                                assert(old(self).events() + Seq::<EventView>::empty() =~= mid);
                            } else {
                                assert(old(self).events() + seq![
                                    EventView::Negotiate(DO, op),
                                ] =~= mid);
                            }
                        }
                    }
                } else if command == WONT {
                    if state.remote.negotiating {
                        self.handshakes_left.remote.remove(&op);
                    }
                    self.op_state.insert(
                        op,
                        TelnetOptionState {
                            remote: TelnetOptionPerspective { enabled: false, negotiating: false },
                            local: state.local,
                        },
                    );
                    if state.remote.enabled {
                        changed = self.disable_remote(op);
                    }
                } else if command == DO {
                    if !state.local.enabled {
                        let was_negotiating = state.local.negotiating;
                        self.op_state.insert(
                            op,
                            TelnetOptionState {
                                remote: state.remote,
                                local: TelnetOptionPerspective {
                                    enabled: true,
                                    negotiating: false,
                                },
                            },
                        );
                        self.handshakes_left.local.remove(&op);
                        if !was_negotiating {
                            let ev = OutboundEvent::Negotiate(WILL, op);
                            proof {
                                lemma_views_of_push(self.send_events@, ev);
                            }
                            self.send_events.push(ev);
                        }
                        changed = self.enable_local(op);
                        proof {
                            if was_negotiating {
                                assert(old(self).events() + Seq::<EventView>::empty() =~= old(
                                    self,
                                ).events());
                            } else {
                                assert(old(self).events() + seq![
                                    EventView::Negotiate(WILL, op),
                                ] =~= old(self).events().push(EventView::Negotiate(WILL, op)));
                            }
                        }
                    }
                } else if command == DONT {
                    if state.local.negotiating {
                        self.handshakes_left.local.remove(&op);
                    }
                    self.op_state.insert(
                        op,
                        TelnetOptionState {
                            remote: state.remote,
                            local: TelnetOptionPerspective { enabled: false, negotiating: false },
                        },
                    );
                    if state.local.enabled {
                        changed = self.disable_local(op);
                    }
                }
            },
            None => {
                if command == WILL {
                    let ev = OutboundEvent::Negotiate(DONT, op);
                    proof {
                        lemma_views_of_push(self.send_events@, ev);
                    }
                    self.send_events.push(ev);
                } else if command == DO {
                    let ev = OutboundEvent::Negotiate(WONT, op);
                    proof {
                        lemma_views_of_push(self.send_events@, ev);
                    }
                    self.send_events.push(ev);
                }
            },
        }
        changed
    }

    /// Consumes a window-size payload: two big-endian 16-bit integers,
    /// width then height. Undersized payloads are ignored. Returns whether
    /// either dimension changed.
    pub fn receive_naws(&mut self, data: &Vec<u8>) -> (changed: bool)
        ensures
            data@.len() >= 4 ==> {
                &&& final(self).caps() == (TelnetConfig {
                    width: (data@[0] * 256 + data@[1]) as u16,
                    height: (data@[2] * 256 + data@[3]) as u16,
                    ..old(self).caps()
                })
                &&& changed == !(old(self).caps().width == data@[0] * 256 + data@[1] && old(
                    self,
                ).caps().height == data@[2] * 256 + data@[3])
                &&& final(self).states() == old(self).states()
                &&& final(self).pending_local() == old(self).pending_local()
                &&& final(self).pending_remote() == old(self).pending_remote()
                &&& final(self).pending_ttype() == old(self).pending_ttype()
                &&& final(self).round() == old(self).round()
                &&& final(self).last_reply() == old(self).last_reply()
                &&& final(self).registry() == old(self).registry()
                &&& final(self).events() == old(self).events()
            },
            data@.len() < 4 ==> changed == false && *final(self) == *old(self),
    {
        if data.len() >= 4 {
            let old_width = self.config.width;
            let old_height = self.config.height;
            let w = (data[0] as u16) * 256 + (data[1] as u16);
            let h = (data[2] as u16) * 256 + (data[3] as u16);
            self.config.width = w;
            self.config.height = h;
            return !(old_width == w && old_height == h);
        }
        false
    }

    /// Consumes the first terminal-type reply: reads the client name and
    /// version off the string, infers the color depth, and remembers the
    /// string for comparison with the next round.
    pub fn receive_ttype_0(&mut self, data: String)
        ensures
            ttype0_caps(old(self).caps(), final(self).caps(), data@),
            final(self).states() == old(self).states(),
            final(self).pending_local() == old(self).pending_local(),
            final(self).pending_remote() == old(self).pending_remote(),
            final(self).pending_ttype() == old(self).pending_ttype(),
            final(self).round() == old(self).round(),
            final(self).last_reply() == old(self).last_reply(),
            final(self).registry() == old(self).registry(),
            final(self).events() == old(self).events(),
    {
        let n = data.as_str().unicode_len();
        let sp = find_space(data.as_str());
        if sp < n {
            let name = data.as_str().substring_char(0, sp);
            let version = data.as_str().substring_char(sp + 1, n);
            proof {
                assert(name@ =~= name_of(data@));
                assert(version@ =~= version_of(data@));
            }
            self.config.client_name = String::from_str(name);
            self.config.client_version = String::from_str(version);
        } else {
            proof {
                crate::strutil::lemma_first_space(data@);
                assert(data@.take(first_space(data@)) =~= data@);
            }
            self.config.client_name = data;
        }
        if Self::color_name_hint(self.config.client_name.as_str()) {
            if self.config.color < 2 {
                self.config.color = 2;
            }
        }
    }

    /// Whether a client name is on the allow-list of well-known clients or
    /// carries a terminal-emulator hint.
    fn color_name_hint(name: &str) -> (r: bool)
        ensures
            r == (known_color_client(name@) || term_hint(name@)),
    {
        if str_eq(name, "ATLANTIS") || str_eq(name, "CMUD") || str_eq(name, "KILDCLIENT")
            || str_eq(name, "MUDLET") || str_eq(name, "MUSHCLIENT") || str_eq(name, "PUTTY")
            || str_eq(name, "BEIP") || str_eq(name, "POTATO") || str_eq(name, "TINYFUGUE") {
            true
        } else {
            str_starts_with(name, "XTERM") || str_ends_with(name, "-256COLOR")
        }
    }

    /// Consumes the second terminal-type reply: a terminal-emulator hint
    /// raises the color depth; the round leaves the pending set.
    pub fn receive_ttype_1(&mut self, data: String)
        ensures
            ttype1_caps(old(self).caps(), final(self).caps(), data@),
            final(self).pending_ttype() == old(self).pending_ttype().remove(1),
            final(self).states() == old(self).states(),
            final(self).pending_local() == old(self).pending_local(),
            final(self).pending_remote() == old(self).pending_remote(),
            final(self).round() == old(self).round(),
            final(self).last_reply() == old(self).last_reply(),
            final(self).registry() == old(self).registry(),
            final(self).events() == old(self).events(),
    {
        if str_starts_with(data.as_str(), "XTERM") || str_ends_with(data.as_str(), "-256COLOR") {
            if self.config.color < 2 {
                self.config.color = 2;
            }
        }
        self.handshakes_left.ttype.remove(&1);
    }

    /// Consumes the third terminal-type reply: a capability bitmask after
    /// its marker. Unparsable text or a zero value has no effect; otherwise
    /// each set bit independently raises the color depth, switches the
    /// encoding or flags a screen reader, and the round leaves the pending
    /// set.
    pub fn receive_ttype_2(&mut self, data: String)
        ensures
            mtts_usable(data@) ==> {
                &&& mtts_caps(old(self).caps(), final(self).caps(), dec_value(data@.skip(5)) as usize)
                &&& final(self).pending_ttype() == old(self).pending_ttype().remove(2)
                &&& final(self).states() == old(self).states()
                &&& final(self).pending_local() == old(self).pending_local()
                &&& final(self).pending_remote() == old(self).pending_remote()
                &&& final(self).round() == old(self).round()
                &&& final(self).last_reply() == old(self).last_reply()
                &&& final(self).registry() == old(self).registry()
                &&& final(self).events() == old(self).events()
            },
            !mtts_usable(data@) ==> *final(self) == *old(self),
    {
        if !str_starts_with(data.as_str(), "MTTS ") {
            return ;
        }
        proof {
            reveal_strlit("MTTS ");
        }
        let n = data.as_str().unicode_len();
        let rest = data.as_str().substring_char(5, n);
        proof {
            assert(rest@ =~= data@.skip(5));
        }
        let mtts: usize = match parse_usize(rest) {
            Some(v) => v,
            None => 0,
        };
        if mtts == 0 {
            return ;
        }
        if mtts & 1 == 1 {
            if self.config.color < 1 {
                self.config.color = 1;
            }
        }
        if mtts & 4 == 4 {
            self.config.encoding = String::from_str("utf8");
        }
        if mtts & 8 == 8 {
            if self.config.color < 2 {
                self.config.color = 2;
            }
        }
        if mtts & 64 == 64 {
            self.config.screen_reader = true;
        }
        self.handshakes_left.ttype.remove(&2);
    }

    /// Dispatches one normalized terminal-type reply string to its round.
    /// Returns whether the capability record changed.
    pub fn receive_ttype_text(&mut self, upper: String) -> (changed: bool)
        requires
            old(self).wf(),
        ensures
            final(self).wf(),
            Self::ttype_text_step(*old(self), *final(self), upper@, changed),
    {
        if self.ttype_count == 0 {
            self.ttype_last = Some(upper.clone());
            self.receive_ttype_0(upper);
            self.ttype_count = 1;
            self.handshakes_left.ttype.remove(&0);
            self.request_ttype();
            true
        } else if self.ttype_count == 1 || self.ttype_count == 2 {
            let is_same = match &self.ttype_last {
                None => false,
                Some(last) => str_eq(last.as_str(), upper.as_str()),
            };
            match &self.ttype_last {
                None => false,
                Some(_) => {
                    if is_same {
                        self.handshakes_left.ttype.clear();
                        self.ttype_last = None;
                        false
                    } else if self.ttype_count == 1 {
                        self.receive_ttype_1(upper.clone());
                        self.ttype_last = Some(upper);
                        self.ttype_count = 2;
                        true
                    } else {
                        self.receive_ttype_2(upper);
                        self.ttype_last = None;
                        self.handshakes_left.ttype.clear();
                        true
                    }
                },
            }
        } else {
            false
        }
    }

    /// Consumes one terminal-type reply payload: marker byte, then the
    /// value. Undersized payloads, a wrong marker, invalid text and
    /// replies with no discovery round pending are all ignored.
    pub fn receive_ttype(&mut self, data: &Vec<u8>) -> (changed: bool)
        requires
            old(self).wf(),
        ensures
            final(self).wf(),
            ttype_reply_ok(*old(self), data@) ==> Self::ttype_text_step(
                *old(self),
                *final(self),
                norm_of(data@.skip(1)),
                changed,
            ),
            !ttype_reply_ok(*old(self), data@) ==> changed == false && *final(self) == *old(self),
    {
        if data.len() < 2 {
            return false;
        }
        if self.handshakes_left.ttype.is_empty() {
            return false;
        }
        if data[0] != 0 {
            return false;
        }
        let mut rest: Vec<u8> = Vec::new();
        let n = data.len();
        for i in 1..n
            invariant
                n == data@.len(),
                n >= 2,
                rest@ == data@.subrange(1, i as int),
        {
            rest.push(data[i]);
        }
        proof {
            assert(rest@ =~= data@.skip(1));
        }
        match utf8_to_string(rest) {
            None => false,
            Some(s) => {
                let trimmed = trim_str(s.as_str());
                let upper = upper_str(trimmed);
                self.receive_ttype_text(upper)
            },
        }
    }

    /// Routes one sub-negotiation payload: window-size and terminal-type
    /// payloads reach their handlers; payloads for untracked or other
    /// options are ignored. Returns whether the capability record changed.
    pub fn handle_sub(&mut self, op: u8, data: Vec<u8>) -> (changed: bool)
        requires
            old(self).wf(),
        ensures
            final(self).wf(),
            !old(self).states().contains_key(op) ==> changed == false && *final(self) == *old(
                self,
            ),
            old(self).states().contains_key(op) && op != NAWS && op != TTYPE ==> changed == false
                && *final(self) == *old(self),
            old(self).states().contains_key(op) && op == NAWS && data@.len() >= 4 ==> {
                &&& final(self).caps() == (TelnetConfig {
                    width: (data@[0] * 256 + data@[1]) as u16,
                    height: (data@[2] * 256 + data@[3]) as u16,
                    ..old(self).caps()
                })
                &&& changed == !(old(self).caps().width == data@[0] * 256 + data@[1] && old(
                    self,
                ).caps().height == data@[2] * 256 + data@[3])
                &&& final(self).events() == old(self).events()
            },
            old(self).states().contains_key(op) && op == NAWS && data@.len() < 4 ==> changed
                == false && *final(self) == *old(self),
            old(self).states().contains_key(op) && op == TTYPE ==> {
                &&& ttype_reply_ok(*old(self), data@) ==> Self::ttype_text_step(
                    *old(self),
                    *final(self),
                    norm_of(data@.skip(1)),
                    changed,
                )
                &&& !ttype_reply_ok(*old(self), data@) ==> changed == false && *final(self)
                    == *old(self)
            },
            // The pending-handshake sets never grow.
            final(self).pending_local().subset_of(old(self).pending_local()),
            final(self).pending_remote().subset_of(old(self).pending_remote()),
            final(self).pending_ttype().subset_of(old(self).pending_ttype()),
            final(self).states() == old(self).states(),
            final(self).registry() == old(self).registry(),
    {
        if !self.op_state.contains_key(&op) {
            return false;
        }
        if op == NAWS {
            self.receive_naws(&data)
        } else if op == TTYPE {
            self.receive_ttype(&data)
        } else {
            false
        }
    }

    /// Normalizes line endings: carriage returns are stripped, then every
    /// line feed becomes a carriage-return + line-feed pair.
    pub fn format_string(in_str: &str) -> (r: String)
        ensures
            r@ == normalize(in_str@),
    {
        normalize_str(in_str)
    }

    /// Queues the normalized text verbatim as one data event.
    pub fn send_text(&mut self, in_str: &str)
        ensures
            Self::same_but_events(*old(self), *final(self)),
            final(self).events() == old(self).events().push(
                EventView::Data(encode_utf8(normalize(in_str@))),
            ),
    {
        let cleaned = Self::format_string(in_str);
        let bytes = cleaned.as_str().as_bytes_vec();
        let ev = OutboundEvent::Data(bytes);
        proof {
            lemma_views_of_push(self.send_events@, ev);
        }
        self.send_events.push(ev);
    }

    /// Queues the normalized text as one data event, guaranteed to end
    /// with exactly one canonical line terminator.
    pub fn send_line(&mut self, in_str: &str)
        ensures
            Self::same_but_events(*old(self), *final(self)),
            final(self).events() == old(self).events().push(
                EventView::Data(encode_utf8(with_crlf(normalize(in_str@)))),
            ),
    {
        let mut cleaned = Self::format_string(in_str);
        ensure_crlf(&mut cleaned);
        let bytes = cleaned.as_str().as_bytes_vec();
        let ev = OutboundEvent::Data(bytes);
        proof {
            lemma_views_of_push(self.send_events@, ev);
        }
        self.send_events.push(ev);
    }

    /// Queues a prompt. Prompt-specific protocol signaling is deferred:
    /// today this sends the text exactly as `send_line` does.
    pub fn send_prompt(&mut self, in_str: &str)
        ensures
            Self::same_but_events(*old(self), *final(self)),
            final(self).events() == old(self).events().push(
                EventView::Data(encode_utf8(with_crlf(normalize(in_str@)))),
            ),
    {
        self.send_line(in_str);
    }
}

/// Pending handshakes never return: every negotiation event leaves each
/// pending set a subset of what it was, and a set that was empty and only
/// shrank is empty still.
pub proof fn lemma_pending_never_regrows(before: Set<u8>, after: Set<u8>)
    requires
        after.subset_of(before),
        before =~= Set::<u8>::empty(),
    ensures
        after =~= Set::<u8>::empty(),
{
}

/// Whether a terminal-type reply payload is well-formed and expected:
/// long enough, marked as a value, valid text, with a round still pending.
pub open spec fn ttype_reply_ok(pre: MuTelnet, bytes: Seq<u8>) -> bool {
    &&& bytes.len() >= 2
    &&& !pre.pending_ttype().is_empty()
    &&& bytes[0] == 0
    &&& valid_utf8(bytes.skip(1))
}

} // verus!
