//! The connecting side: making a link.
use vstd::prelude::*;
use crate::l2cap::adapter::Attempt;
use crate::l2cap::search;
use crate::l2cap::search::{SearchFault, SearchPhase};

verus! {

/// What is to be done next to make a link.
#[derive(Clone, Copy, PartialEq, Eq, Structural, Debug)]
pub enum DialPhase {
    /// Plan by the endpoint.
    Planning,
    /// Set the connector up.
    Building,
    /// Find the peer and open a channel to it.
    Searching,
    /// Secure the channel to this address, within the time for a handshake.
    Handshaking { address: u64 },
    /// Make a link of the secured channel.
    Making { address: u64 },
    /// Nothing: there is a link to the peer at this address.
    Linked { address: u64 },
    /// Nothing: there is none.
    Failed(DialFault),
}

/// Why there is no link.
#[derive(Clone, Copy, PartialEq, Eq, Structural, Debug)]
pub enum DialFault {
    /// The endpoint cannot be served.
    Plan,
    /// The connector cannot be set up.
    Connector,
    /// There is no channel.
    Search(SearchFault),
    /// The handshake with this address failed.
    HandshakeFailed { address: u64 },
    /// The handshake with this address took too long.
    HandshakeTimedOut { address: u64 },
    /// The link to this address has no locator.
    Locator { address: u64 },
}

/// How it went.
#[derive(Clone, Copy, PartialEq, Eq, Structural, Debug)]
pub enum DialEvent {
    /// There is a plan, or none.
    Planned(bool),
    /// There is a connector, or none.
    Built(bool),
    /// What the search came to.
    Searched(SearchPhase),
    /// How the handshake went.
    Handshake(Attempt),
    /// There is a link, or none.
    Made(bool),
}

/// Whether an event is one that a phase can bring.
pub open spec fn dial_event_fits(phase: DialPhase, event: DialEvent) -> bool {
    match event {
        DialEvent::Planned(_) => phase == DialPhase::Planning,
        DialEvent::Built(_) => phase == DialPhase::Building,
        DialEvent::Searched(found) => phase == DialPhase::Searching && search::search_is_over(
            found,
        ),
        DialEvent::Handshake(_) => phase is Handshaking,
        DialEvent::Made(_) => phase is Making,
    }
}

/// The phase that follows. What fails first ends it.
pub open spec fn dial_next(phase: DialPhase, event: DialEvent) -> DialPhase {
    match (phase, event) {
        (_, DialEvent::Planned(true)) => DialPhase::Building,
        (_, DialEvent::Planned(false)) => DialPhase::Failed(DialFault::Plan),
        (_, DialEvent::Built(true)) => DialPhase::Searching,
        (_, DialEvent::Built(false)) => DialPhase::Failed(DialFault::Connector),
        (_, DialEvent::Searched(SearchPhase::Linked { address })) => DialPhase::Handshaking {
            address,
        },
        (_, DialEvent::Searched(SearchPhase::Failed(fault))) => DialPhase::Failed(
            DialFault::Search(fault),
        ),
        (DialPhase::Handshaking { address }, DialEvent::Handshake(attempt)) => match attempt {
            Attempt::Done => DialPhase::Making { address },
            Attempt::Failed => DialPhase::Failed(DialFault::HandshakeFailed { address }),
            Attempt::TimedOut => DialPhase::Failed(DialFault::HandshakeTimedOut { address }),
        },
        (DialPhase::Making { address }, DialEvent::Made(true)) => DialPhase::Linked { address },
        (DialPhase::Making { address }, DialEvent::Made(false)) => DialPhase::Failed(
            DialFault::Locator { address },
        ),
        _ => phase,
    }
}

/// Decides on the phase that follows.
pub fn dial_step(phase: DialPhase, event: DialEvent) -> (next: DialPhase)
    requires
        dial_event_fits(phase, event),
    ensures
        next == dial_next(phase, event),
{
    match event {
        DialEvent::Planned(ok) => if ok {
            DialPhase::Building
        } else {
            DialPhase::Failed(DialFault::Plan)
        },
        DialEvent::Built(ok) => if ok {
            DialPhase::Searching
        } else {
            DialPhase::Failed(DialFault::Connector)
        },
        DialEvent::Searched(found) => match found {
            SearchPhase::Linked { address } => DialPhase::Handshaking { address },
            SearchPhase::Failed(fault) => DialPhase::Failed(DialFault::Search(fault)),
            _ => phase,
        },
        DialEvent::Handshake(attempt) => match phase {
            DialPhase::Handshaking { address } => match attempt {
                Attempt::Done => DialPhase::Making { address },
                Attempt::Failed => DialPhase::Failed(DialFault::HandshakeFailed { address }),
                Attempt::TimedOut => DialPhase::Failed(DialFault::HandshakeTimedOut { address }),
            },
            _ => phase,
        },
        DialEvent::Made(ok) => match phase {
            DialPhase::Making { address } => if ok {
                DialPhase::Linked { address }
            } else {
                DialPhase::Failed(DialFault::Locator { address })
            },
            _ => phase,
        },
    }
}

/// The phase after a run of events.
pub open spec fn dial_run(events: Seq<DialEvent>) -> DialPhase
    decreases events.len(),
{
    if events.len() == 0 {
        DialPhase::Planning
    } else {
        dial_next(dial_run(events.drop_last()), events.last())
    }
}

/// Whether each event of a run is one that its phase can bring.
pub open spec fn dial_run_fits(events: Seq<DialEvent>) -> bool
    decreases events.len(),
{
    events.len() > 0 ==> dial_run_fits(events.drop_last()) && dial_event_fits(
        dial_run(events.drop_last()),
        events.last(),
    )
}

/// The events of a link to an address, as far as everything goes well.
pub open spec fn good_course(address: u64) -> Seq<DialEvent> {
    seq![
        DialEvent::Planned(true),
        DialEvent::Built(true),
        DialEvent::Searched(SearchPhase::Linked { address }),
        DialEvent::Handshake(Attempt::Done),
        DialEvent::Made(true),
    ]
}

/// Whether an event says that something failed.
pub open spec fn is_failure(event: DialEvent) -> bool {
    match event {
        DialEvent::Planned(ok) => !ok,
        DialEvent::Built(ok) => !ok,
        DialEvent::Searched(found) => found is Failed,
        DialEvent::Handshake(attempt) => attempt != Attempt::Done,
        DialEvent::Made(ok) => !ok,
    }
}

/// A link is made only after the plan, the connector, the channel and the
/// handshake within its time all succeeded, one after the other; and it leads to
/// the address that the channel was opened to. Making a link fails exactly where
/// one of them does, at the first that does, and the fault says which.
pub proof fn law_link_is_made_of_a_secured_channel(events: Seq<DialEvent>)
    requires
        dial_run_fits(events),
    ensures
        events.len() <= 5,
        forall|i: int| 0 <= i < events.len() - 1 ==> !is_failure(#[trigger] events[i]),
        dial_run(events) is Failed <==> events.len() > 0 && is_failure(events.last()),
        match dial_run(events) {
            DialPhase::Planning => events == good_course(0).take(0),
            DialPhase::Building => events == good_course(0).take(1),
            DialPhase::Searching => events == good_course(0).take(2),
            DialPhase::Handshaking { address } => events == good_course(address).take(3),
            DialPhase::Making { address } => events == good_course(address).take(4),
            DialPhase::Linked { address } => events == good_course(address),
            DialPhase::Failed(fault) => match fault {
                DialFault::Plan => events.len() == 1,
                DialFault::Connector => events.len() == 2,
                DialFault::Search(found) => events.len() == 3 && events.last()
                    == DialEvent::Searched(SearchPhase::Failed(found)),
                DialFault::HandshakeFailed { address } => events == good_course(address).take(
                    3,
                ).push(DialEvent::Handshake(Attempt::Failed)),
                DialFault::HandshakeTimedOut { address } => events == good_course(address).take(
                    3,
                ).push(DialEvent::Handshake(Attempt::TimedOut)),
                DialFault::Locator { address } => events == good_course(address).take(4).push(
                    DialEvent::Made(false),
                ),
            },
        },
    decreases events.len(),
{
    if events.len() > 0 {
        let before = events.drop_last();
        law_link_is_made_of_a_secured_channel(before);
        assert(events =~= before.push(events.last()));
        assert forall|i: int| 0 <= i < events.len() - 1 implies !is_failure(
            #[trigger] events[i],
        ) by {
            assert(events[i] == before[i]);
            if i == before.len() - 1 {
                assert(before.last() == before[i]);
            }
        }
        match dial_run(events) {
            DialPhase::Building => {
                assert(events =~= good_course(0).take(1));
            },
            DialPhase::Searching => {
                assert(events =~= good_course(0).take(2));
            },
            DialPhase::Handshaking { address } => {
                assert(good_course(address).take(2) =~= good_course(0).take(2));
                assert(events =~= good_course(address).take(3));
            },
            DialPhase::Making { address } => {
                assert(events =~= good_course(address).take(4));
            },
            DialPhase::Linked { address } => {
                assert(events =~= good_course(address));
            },
            _ => {},
        }
    } else {
        assert(events =~= good_course(0).take(0));
    }
}

/// One event more.
proof fn lemma_dial_push(events: Seq<DialEvent>, event: DialEvent)
    ensures
        dial_run(events.push(event)) == dial_next(dial_run(events), event),
        dial_run_fits(events.push(event)) <==> dial_run_fits(events) && dial_event_fits(
            dial_run(events),
            event,
        ),
{
    assert(events.push(event).drop_last() =~= events);
}

/// Where the plan, the connector, the search, the handshake and the link all
/// succeed, there is a link to the peer that the search came to. Where one does not,
/// there is none, and the fault says which one and of which peer.
pub proof fn law_dialing_ends(address: u64, fault: SearchFault)
    ensures
        ({
            let planned = seq![DialEvent::Planned(true)];
            let built = planned.push(DialEvent::Built(true));
            let found = built.push(DialEvent::Searched(SearchPhase::Linked { address }));
            let secured = found.push(DialEvent::Handshake(Attempt::Done));
            let made = secured.push(DialEvent::Made(true));
            let unplanned = seq![DialEvent::Planned(false)];
            let unbuilt = planned.push(DialEvent::Built(false));
            let unfound = built.push(DialEvent::Searched(SearchPhase::Failed(fault)));
            let refused = found.push(DialEvent::Handshake(Attempt::Failed));
            let late = found.push(DialEvent::Handshake(Attempt::TimedOut));
            let unmade = secured.push(DialEvent::Made(false));
            &&& dial_run_fits(made) && dial_run(made) == (DialPhase::Linked { address })
            &&& dial_run_fits(unplanned) && dial_run(unplanned) == DialPhase::Failed(
                DialFault::Plan,
            )
            &&& dial_run_fits(unbuilt) && dial_run(unbuilt) == DialPhase::Failed(
                DialFault::Connector,
            )
            &&& dial_run_fits(unfound) && dial_run(unfound) == DialPhase::Failed(
                DialFault::Search(fault),
            )
            &&& dial_run_fits(refused) && dial_run(refused) == DialPhase::Failed(
                DialFault::HandshakeFailed { address },
            )
            &&& dial_run_fits(late) && dial_run(late) == DialPhase::Failed(
                DialFault::HandshakeTimedOut { address },
            )
            &&& dial_run_fits(unmade) && dial_run(unmade) == DialPhase::Failed(
                DialFault::Locator { address },
            )
        }),
{
    let none = Seq::<DialEvent>::empty();
    let planned = seq![DialEvent::Planned(true)];
    assert(none.push(DialEvent::Planned(true)) =~= planned);
    assert(none.push(DialEvent::Planned(false)) =~= seq![DialEvent::Planned(false)]);
    lemma_dial_push(none, DialEvent::Planned(true));
    lemma_dial_push(none, DialEvent::Planned(false));
    lemma_dial_push(planned, DialEvent::Built(true));
    lemma_dial_push(planned, DialEvent::Built(false));
    let built = planned.push(DialEvent::Built(true));
    lemma_dial_push(built, DialEvent::Searched(SearchPhase::Linked { address }));
    lemma_dial_push(built, DialEvent::Searched(SearchPhase::Failed(fault)));
    let found = built.push(DialEvent::Searched(SearchPhase::Linked { address }));
    lemma_dial_push(found, DialEvent::Handshake(Attempt::Done));
    lemma_dial_push(found, DialEvent::Handshake(Attempt::Failed));
    lemma_dial_push(found, DialEvent::Handshake(Attempt::TimedOut));
    let secured = found.push(DialEvent::Handshake(Attempt::Done));
    lemma_dial_push(secured, DialEvent::Made(true));
    lemma_dial_push(secured, DialEvent::Made(false));
}

} // verus!
