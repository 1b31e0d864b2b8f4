//! Telling peers from the other devices that come into view.
use vstd::prelude::*;
use crate::gatt::service;
use crate::l2cap;

verus! {

/// What is to be done next to come upon a peer.
#[derive(Clone, Copy, PartialEq, Eq, Structural, Debug)]
pub enum ProbePhase {
    /// Wait for the next discovery event.
    Waiting,
    /// Get hold of the device at this address.
    LookingUp { address: u64 },
    /// Ask the device for the services that it advertises.
    AskingUuids { address: u64 },
    /// Ask for the type of its address.
    AskingType { address: u64 },
    /// Nothing: the device at this address is a peer.
    Ready { address: u64 },
    /// Nothing: the discovery is over.
    Ended,
}

/// How it went.
#[derive(Debug)]
pub enum ProbeEvent {
    /// A device has come into view.
    DeviceAdded { address: u64 },
    /// Anything else has happened.
    Other,
    /// The discovery is over.
    Ended,
    /// The device was got hold of, or was not.
    LookedUp(bool),
    /// The services that the device advertises, if it tells.
    Uuids(Option<Vec<u128>>),
    /// The type of the address is known, or is not.
    Type(bool),
}

/// Whether a device with these services is a peer.
pub open spec fn is_peer(uuids: Option<Vec<u128>>) -> bool {
    uuids matches Some(uuids) && uuids@.contains(service::SERVICE_UUID)
}

/// Whether an event is one that a phase can bring.
pub open spec fn probe_event_fits(phase: ProbePhase, event: ProbeEvent) -> bool {
    match event {
        ProbeEvent::DeviceAdded { .. } => phase == ProbePhase::Waiting,
        ProbeEvent::Other => phase == ProbePhase::Waiting,
        ProbeEvent::Ended => phase == ProbePhase::Waiting,
        ProbeEvent::LookedUp(_) => phase is LookingUp,
        ProbeEvent::Uuids(_) => phase is AskingUuids,
        ProbeEvent::Type(_) => phase is AskingType,
    }
}

/// The phase that follows. A device that does not turn out to be a peer is
/// passed over.
pub open spec fn probe_next(phase: ProbePhase, event: ProbeEvent) -> ProbePhase {
    match (phase, event) {
        (_, ProbeEvent::DeviceAdded { address }) => ProbePhase::LookingUp { address },
        (_, ProbeEvent::Other) => ProbePhase::Waiting,
        (_, ProbeEvent::Ended) => ProbePhase::Ended,
        (ProbePhase::LookingUp { address }, ProbeEvent::LookedUp(true)) => ProbePhase::AskingUuids {
            address,
        },
        (ProbePhase::AskingUuids { address }, ProbeEvent::Uuids(uuids)) => if is_peer(uuids) {
            ProbePhase::AskingType { address }
        } else {
            ProbePhase::Waiting
        },
        (ProbePhase::AskingType { address }, ProbeEvent::Type(true)) => ProbePhase::Ready {
            address,
        },
        _ => ProbePhase::Waiting,
    }
}

/// Looks for the service of peers.
fn advertises_peer(uuids: &Vec<u128>) -> (peer: bool)
    ensures
        peer == uuids@.contains(service::SERVICE_UUID),
{
    let uuid: u128 = l2cap::service_uuid();
    let mut i: usize = 0;
    while i < uuids.len()
        invariant
            i <= uuids@.len(),
            uuid == service::SERVICE_UUID,
            forall|j: int| 0 <= j < i ==> uuids@[j] != uuid,
        decreases uuids@.len() - i,
    {
        if uuids[i] == uuid {
            return true;
        }
        i = i + 1;
    }
    false
}

/// Decides on the phase that follows.
pub fn probe_step(phase: ProbePhase, event: ProbeEvent) -> (next: ProbePhase)
    requires
        probe_event_fits(phase, event),
    ensures
        next == probe_next(phase, event),
{
    match event {
        ProbeEvent::DeviceAdded { address } => ProbePhase::LookingUp { address },
        ProbeEvent::Other => ProbePhase::Waiting,
        ProbeEvent::Ended => ProbePhase::Ended,
        ProbeEvent::LookedUp(ok) => match phase {
            ProbePhase::LookingUp { address } if ok => ProbePhase::AskingUuids { address },
            _ => ProbePhase::Waiting,
        },
        ProbeEvent::Uuids(uuids) => match (phase, uuids) {
            (ProbePhase::AskingUuids { address }, Some(uuids)) => if advertises_peer(&uuids) {
                ProbePhase::AskingType { address }
            } else {
                ProbePhase::Waiting
            },
            _ => ProbePhase::Waiting,
        },
        ProbeEvent::Type(ok) => match phase {
            ProbePhase::AskingType { address } if ok => ProbePhase::Ready { address },
            _ => ProbePhase::Waiting,
        },
    }
}

/// The phase after a run of events.
pub open spec fn probe_run(events: Seq<ProbeEvent>) -> ProbePhase
    decreases events.len(),
{
    if events.len() == 0 {
        ProbePhase::Waiting
    } else {
        probe_next(probe_run(events.drop_last()), events.last())
    }
}

/// Whether each event of a run is one that its phase can bring.
pub open spec fn probe_run_fits(events: Seq<ProbeEvent>) -> bool
    decreases events.len(),
{
    events.len() > 0 ==> probe_run_fits(events.drop_last()) && probe_event_fits(
        probe_run(events.drop_last()),
        events.last(),
    )
}

/// What the last events say of the device that is looked at in a phase: that it
/// came into view, was got hold of, advertises the service of peers and has an
/// address of a known type, as far as that has been asked. Events that are none
/// of a probe stand as `None`.
pub open spec fn probe_tail(events: Seq<Option<ProbeEvent>>, phase: ProbePhase) -> bool {
    let n = events.len() as int;
    match phase {
        ProbePhase::LookingUp { address } => n >= 1 && is_sight(events[n - 1], address),
        ProbePhase::AskingUuids { address } => {
            &&& n >= 2
            &&& is_sight(events[n - 2], address)
            &&& events[n - 1] == Some(ProbeEvent::LookedUp(true))
        },
        ProbePhase::AskingType { address } => {
            &&& n >= 3
            &&& is_sight(events[n - 3], address)
            &&& events[n - 2] == Some(ProbeEvent::LookedUp(true))
            &&& is_peer_answer(events[n - 1])
        },
        ProbePhase::Ready { address } => {
            &&& n >= 4
            &&& is_sight(events[n - 4], address)
            &&& events[n - 3] == Some(ProbeEvent::LookedUp(true))
            &&& is_peer_answer(events[n - 2])
            &&& events[n - 1] == Some(ProbeEvent::Type(true))
        },
        _ => true,
    }
}

/// Whether an event is that a device came into view.
pub open spec fn is_sight(event: Option<ProbeEvent>, address: u64) -> bool {
    event == Some(ProbeEvent::DeviceAdded { address })
}

/// Whether an event is that a device advertises the service of peers.
pub open spec fn is_peer_answer(event: Option<ProbeEvent>) -> bool {
    event matches Some(ProbeEvent::Uuids(uuids)) && is_peer(uuids)
}

/// One event more.
pub proof fn lemma_probe_tail(
    events: Seq<Option<ProbeEvent>>,
    phase: ProbePhase,
    event: ProbeEvent,
)
    requires
        probe_tail(events, phase),
        probe_event_fits(phase, event),
    ensures
        probe_tail(events.push(Some(event)), probe_next(phase, event)),
{
    let after = events.push(Some(event));
    assert(forall|i: int| 0 <= i < events.len() ==> after[i] == events[i]);
}

/// The events of a probe, none of which is anything else.
pub open spec fn all_probes(events: Seq<ProbeEvent>) -> Seq<Option<ProbeEvent>> {
    events.map_values(|event: ProbeEvent| Some(event))
}

/// A device counts as a peer only where it came into view, was got hold of,
/// advertises the service of peers and has an address of a known type, one
/// right after the other.
pub proof fn law_peer_advertises_the_service(events: Seq<ProbeEvent>)
    requires
        probe_run_fits(events),
    ensures
        probe_tail(all_probes(events), probe_run(events)),
    decreases events.len(),
{
    if events.len() > 0 {
        let before = events.drop_last();
        law_peer_advertises_the_service(before);
        lemma_probe_tail(all_probes(before), probe_run(before), events.last());
        assert(all_probes(events) =~= all_probes(before).push(Some(events.last())));
    }
}

/// One event more.
proof fn lemma_probe_push(events: Seq<ProbeEvent>, event: ProbeEvent)
    ensures
        probe_run(events.push(event)) == probe_next(probe_run(events), event),
        probe_run_fits(events.push(event)) <==> probe_run_fits(events) && probe_event_fits(
            probe_run(events),
            event,
        ),
{
    assert(events.push(event).drop_last() =~= events);
}

/// A device that comes into view and is got hold of is taken for a peer exactly
/// where the Zenoh service is among the services that it tells, however many others
/// there are and wherever it stands among them. A peer with an address of a known
/// type is then ready at the address at which it came into view. Any other device,
/// and one that cannot be got hold of, is passed over; only the end of the discovery
/// ends the probe.
pub proof fn law_probe_takes_every_peer(
    events: Seq<ProbeEvent>,
    address: u64,
    uuids: Option<Vec<u128>>,
)
    requires
        probe_run_fits(events),
        probe_run(events) == ProbePhase::Waiting,
    ensures
        ({
            let told = events + seq![
                ProbeEvent::DeviceAdded { address },
                ProbeEvent::LookedUp(true),
                ProbeEvent::Uuids(uuids),
            ];
            let lost = events + seq![
                ProbeEvent::DeviceAdded { address },
                ProbeEvent::LookedUp(false),
            ];
            let peer = uuids is Some && uuids->0@.contains(
                0x24A9597F_1060_41BB_AB31_B638662BDCCCu128,
            );
            &&& probe_run_fits(told)
            &&& probe_run(told) == (ProbePhase::AskingType { address }) <==> peer
            &&& probe_run(told) == ProbePhase::Waiting <==> !peer
            &&& peer ==> probe_run_fits(told.push(ProbeEvent::Type(true))) && probe_run(
                told.push(ProbeEvent::Type(true)),
            ) == (ProbePhase::Ready { address })
            &&& peer ==> probe_run_fits(told.push(ProbeEvent::Type(false))) && probe_run(
                told.push(ProbeEvent::Type(false)),
            ) == ProbePhase::Waiting
            &&& probe_run_fits(lost) && probe_run(lost) == ProbePhase::Waiting
        }),
        probe_run_fits(events.push(ProbeEvent::Other)),
        probe_run(events.push(ProbeEvent::Other)) == ProbePhase::Waiting,
        probe_run_fits(events.push(ProbeEvent::Ended)),
        probe_run(events.push(ProbeEvent::Ended)) == ProbePhase::Ended,
{
    lemma_probe_push(events, ProbeEvent::Other);
    lemma_probe_push(events, ProbeEvent::Ended);
    let added = events.push(ProbeEvent::DeviceAdded { address });
    lemma_probe_push(events, ProbeEvent::DeviceAdded { address });
    lemma_probe_push(added, ProbeEvent::LookedUp(false));
    assert(added.push(ProbeEvent::LookedUp(false)) =~= events + seq![
        ProbeEvent::DeviceAdded { address },
        ProbeEvent::LookedUp(false),
    ]);
    let held = added.push(ProbeEvent::LookedUp(true));
    lemma_probe_push(added, ProbeEvent::LookedUp(true));
    let told = held.push(ProbeEvent::Uuids(uuids));
    lemma_probe_push(held, ProbeEvent::Uuids(uuids));
    assert(told =~= events + seq![
        ProbeEvent::DeviceAdded { address },
        ProbeEvent::LookedUp(true),
        ProbeEvent::Uuids(uuids),
    ]);
    lemma_probe_push(told, ProbeEvent::Type(true));
    lemma_probe_push(told, ProbeEvent::Type(false));
}

/// A probe of one peer from the beginning.
pub proof fn lemma_peer_is_ready(address: u64, uuids: Vec<u128>)
    requires
        uuids@.contains(0x24A9597F_1060_41BB_AB31_B638662BDCCCu128),
    ensures
        ({
            let probes = seq![
                ProbeEvent::DeviceAdded { address },
                ProbeEvent::LookedUp(true),
                ProbeEvent::Uuids(Some(uuids)),
                ProbeEvent::Type(true),
            ];
            probe_run_fits(probes) && probe_run(probes) == (ProbePhase::Ready { address })
        }),
{
    let none = Seq::<ProbeEvent>::empty();
    law_probe_takes_every_peer(none, address, Some(uuids));
    assert((none + seq![
        ProbeEvent::DeviceAdded { address },
        ProbeEvent::LookedUp(true),
        ProbeEvent::Uuids(Some(uuids)),
    ]).push(ProbeEvent::Type(true)) =~= seq![
        ProbeEvent::DeviceAdded { address },
        ProbeEvent::LookedUp(true),
        ProbeEvent::Uuids(Some(uuids)),
        ProbeEvent::Type(true),
    ]);
}

} // verus!
