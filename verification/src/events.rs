//! Outbound events: what the engine queues for the caller to drain and hand
//! to the wire-level encoder. A closed tagged type with exactly the three
//! payload shapes the protocol produces, plus its mathematical view.

use vstd::prelude::*;

verus! {

/// One outbound protocol event.
#[derive(Debug, PartialEq, Eq)]
pub enum OutboundEvent {
    /// A negotiation verb (`WILL`/`WONT`/`DO`/`DONT`) about one option code.
    Negotiate(u8, u8),
    /// A sub-negotiation payload for one option code.
    SubNegotiate(u8, Vec<u8>),
    /// Plain data bytes.
    Data(Vec<u8>),
}

/// The mathematical shape of an outbound event, used by contracts.
pub enum EventView {
    Negotiate(u8, u8),
    SubNegotiate(u8, Seq<u8>),
    Data(Seq<u8>),
}

impl View for OutboundEvent {
    type V = EventView;

    open spec fn view(&self) -> EventView {
        match self {
            OutboundEvent::Negotiate(c, o) => EventView::Negotiate(*c, *o),
            OutboundEvent::SubNegotiate(o, p) => EventView::SubNegotiate(*o, p@),
            OutboundEvent::Data(p) => EventView::Data(p@),
        }
    }
}

/// The views of a queue of outbound events.
pub open spec fn views_of(q: Seq<OutboundEvent>) -> Seq<EventView> {
    q.map_values(|e: OutboundEvent| e@)
}

/// Pushing one event onto a queue appends its view to the queue's views.
pub proof fn lemma_views_of_push(q: Seq<OutboundEvent>, e: OutboundEvent)
    ensures
        views_of(q.push(e)) == views_of(q).push(e@),
{
    assert(views_of(q.push(e)) =~= views_of(q).push(e@));
}

} // verus!
