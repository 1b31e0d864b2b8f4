//! The listening side: scanning for peers.
use std::collections::HashSet;
use vstd::multiset::Multiset;
use vstd::prelude::*;
use vstd::string::*;
use crate::l2cap::config;
use crate::l2cap::probe;
use crate::l2cap::probe::{ProbeEvent, ProbePhase};

verus! {

broadcast use vstd::std_specs::hash::group_hash_axioms;

/// The pause before a discovery that did not start is tried again, in
/// milliseconds.
pub const SCAN_PAUSE_MS: u64 = 2000;

/// The name of an adapter that does not tell its alias.
pub const DEFAULT_ALIAS: &'static str = "bt";

/// The name that an adapter with this alias goes by.
pub open spec fn scan_name(alias: Option<Seq<char>>) -> Seq<char> {
    match alias {
        Some(alias) => alias,
        None => DEFAULT_ALIAS@,
    }
}

/// What a discovery for this name is restricted to.
pub open spec fn scan_filter(device: Seq<char>) -> Option<Seq<char>> {
    if device.len() == 0 {
        None
    } else {
        Some(device)
    }
}

/// An adapter goes by its alias, and by `bt` only without one; a discovery is
/// restricted to the name that is asked for, whatever it is, and to nothing only where
/// none is.
pub proof fn law_scan_goes_by_names(name: Seq<char>)
    ensures
        scan_name(Some(name)) == name,
        scan_name(None) == seq!['b', 't'],
        name.len() > 0 ==> scan_filter(name) == Some(name),
        scan_filter(Seq::empty()) is None,
{
    reveal_strlit("bt");
    assert("bt"@ =~= seq!['b', 't']);
}

/// The name that an adapter goes by.
pub fn scan_alias(alias: Option<String>) -> (name: String)
    ensures
        alias is Some ==> name@ == alias->0@,
        alias is None ==> name@ == DEFAULT_ALIAS@,
        name@ == scan_name(config::option_text(alias)),
{
    match alias {
        Some(alias) => alias,
        None => DEFAULT_ALIAS.to_owned(),
    }
}

/// What the discovery is restricted to. An empty name restricts nothing.
pub fn scan_pattern(device: &str) -> (pattern: Option<String>)
    ensures
        pattern is None <==> device@.len() == 0,
        pattern is Some ==> pattern->0@ == device@,
        config::option_text(pattern) == scan_filter(device@),
{
    if device.is_empty() {
        None
    } else {
        Some(device.to_owned())
    }
}

/// The devices that are being accepted.
pub struct InProgress {
    addresses: HashSet<u64>,
}

impl View for InProgress {
    type V = Set<u64>;

    closed spec fn view(&self) -> Set<u64> {
        self.addresses@
    }
}

impl InProgress {
    /// None yet.
    pub fn new() -> (devices: Self)
        ensures
            devices@ == Set::<u64>::empty(),
    {
        InProgress { addresses: HashSet::new() }
    }

    /// Takes a device in, unless it is there already.
    pub fn begin(&mut self, address: u64) -> (begun: bool)
        ensures
            begun == !old(self)@.contains(address),
            final(self)@ == old(self)@.insert(address),
            begun == is_free(old(self)@, address),
            final(self)@ == with_device(old(self)@, address),
    {
        self.addresses.insert(address)
    }

    /// Lets a device go.
    pub fn finish(&mut self, address: u64)
        ensures
            final(self)@ == old(self)@.remove(address),
            final(self)@ == without_device(old(self)@, address),
    {
        self.addresses.remove(&address);
    }
}

/// Whether a device can be taken in.
pub open spec fn is_free(devices: Set<u64>, address: u64) -> bool {
    !devices.contains(address)
}

/// The devices with one taken in.
pub open spec fn with_device(devices: Set<u64>, address: u64) -> Set<u64> {
    devices.insert(address)
}

/// The devices with one let go.
pub open spec fn without_device(devices: Set<u64>, address: u64) -> Set<u64> {
    devices.remove(address)
}

/// A device can be taken in exactly where it is not there. Once it was taken in it
/// cannot be again, once it was let go it can, and neither changes that of another;
/// taking a device in and letting it go leaves everything as it was.
pub proof fn law_device_is_taken_in_once(devices: Set<u64>, address: u64, other: u64)
    ensures
        is_free(Set::empty(), address),
        !is_free(with_device(devices, address), address),
        is_free(without_device(devices, address), address),
        other != address ==> is_free(with_device(devices, address), other) == is_free(
            devices,
            other,
        ),
        other != address ==> is_free(without_device(devices, address), other) == is_free(
            devices,
            other,
        ),
        is_free(devices, address) ==> without_device(with_device(devices, address), address)
            == devices,
{
    if is_free(devices, address) {
        assert(without_device(with_device(devices, address), address) =~= devices);
    }
}

/// A device that was taken in is not taken in again until it was let go, after
/// which it is; where it was not there before, everything is then as it was.
/// Others are not affected.
pub proof fn law_one_acceptance_per_device(devices: Set<u64>, address: u64, other: u64)
    requires
        other != address,
    ensures
        devices.insert(address).contains(address),
        !devices.insert(address).remove(address).contains(address),
        !devices.contains(address) ==> devices.insert(address).remove(address) == devices,
        devices.insert(address).contains(other) == devices.contains(other),
        devices.remove(address).contains(other) == devices.contains(other),
{
    if !devices.contains(address) {
        assert(devices.insert(address).remove(address) =~= devices);
    }
}

/// What happens to the devices of a listener.
pub enum Progress {
    /// A peer is found at this address. It is accepted where it can be taken in.
    Found { address: u64 },
    /// An acceptance of the peer at this address lets it go.
    Released { address: u64 },
}

/// The devices that are taken in after a run of what happens.
pub open spec fn taken_in(events: Seq<Progress>) -> Set<u64>
    decreases events.len(),
{
    if events.len() == 0 {
        Set::empty()
    } else {
        match events.last() {
            Progress::Found { address } => with_device(taken_in(events.drop_last()), address),
            Progress::Released { address } => without_device(
                taken_in(events.drop_last()),
                address,
            ),
        }
    }
}

/// The devices of the acceptances that are running then.
pub open spec fn running(events: Seq<Progress>) -> Multiset<u64>
    decreases events.len(),
{
    if events.len() == 0 {
        Multiset::empty()
    } else {
        let before = running(events.drop_last());
        match events.last() {
            Progress::Found { address } => if is_free(taken_in(events.drop_last()), address) {
                before.insert(address)
            } else {
                before
            },
            Progress::Released { address } => before.remove(address),
        }
    }
}

/// Whether devices are let go by acceptances that are running.
pub open spec fn releases_fit(events: Seq<Progress>) -> bool
    decreases events.len(),
{
    events.len() > 0 ==> {
        &&& releases_fit(events.drop_last())
        &&& events.last() matches Progress::Released { address } ==> running(
            events.drop_last(),
        ).contains(address)
    }
}

/// At no time do two acceptances of the same device run, and a device is taken
/// in exactly as long as one does.
pub proof fn law_one_acceptance_at_a_time(events: Seq<Progress>, address: u64)
    requires
        releases_fit(events),
    ensures
        running(events).count(address) == if taken_in(events).contains(address) {
            1nat
        } else {
            0nat
        },
    decreases events.len(),
{
    if events.len() > 0 {
        law_one_acceptance_at_a_time(events.drop_last(), address);
        match events.last() {
            Progress::Found { address: other } => {
                law_one_acceptance_at_a_time(events.drop_last(), other);
            },
            Progress::Released { address: other } => {
                law_one_acceptance_at_a_time(events.drop_last(), other);
            },
        }
    }
}

/// What is to be done next by a scan.
#[derive(Clone, Copy, PartialEq, Eq, Structural, Debug)]
pub enum ScanPhase {
    /// Restrict the discovery to low-energy devices of the name.
    Filtering,
    /// Start the discovery.
    Discovering,
    /// Wait for `SCAN_PAUSE_MS`.
    Pausing,
    /// Look at the devices that come into view, until cancelled.
    Probing(ProbePhase),
    /// Take the peer at this address in.
    Claiming { address: u64 },
    /// Start to accept it.
    Accepting { address: u64 },
    /// Nothing: the scan was cancelled.
    Stopped,
}

/// How it went.
#[derive(Debug)]
pub enum ScanEvent {
    Filtered(bool),
    Started(bool),
    /// The pause is over.
    Paused,
    Probed(ProbeEvent),
    /// The peer was taken in, or was there already.
    Claimed(bool),
    /// The acceptance of the peer has been started.
    Accepting,
    /// The scan was cancelled.
    Cancelled,
}

/// Whether an event is one that a phase can bring.
pub open spec fn scan_event_fits(phase: ScanPhase, event: ScanEvent) -> bool {
    match event {
        ScanEvent::Filtered(_) => phase == ScanPhase::Filtering,
        ScanEvent::Started(_) => phase == ScanPhase::Discovering,
        ScanEvent::Paused => phase == ScanPhase::Pausing,
        ScanEvent::Probed(event) => phase matches ScanPhase::Probing(probing)
            && probe::probe_event_fits(probing, event),
        ScanEvent::Claimed(_) => phase is Claiming,
        ScanEvent::Accepting => phase is Accepting,
        ScanEvent::Cancelled => phase is Probing || phase is Claiming,
    }
}

/// The phase that follows a probe.
pub open spec fn scan_after_probe(probing: ProbePhase) -> ScanPhase {
    match probing {
        ProbePhase::Ready { address } => ScanPhase::Claiming { address },
        ProbePhase::Ended => ScanPhase::Discovering,
        _ => ScanPhase::Probing(probing),
    }
}

/// The phase that follows. A discovery without a filter goes on, one that does
/// not start is tried again, and one that is over is started anew: only being
/// cancelled stops a scan.
pub open spec fn scan_next(phase: ScanPhase, event: ScanEvent) -> ScanPhase {
    match (phase, event) {
        (_, ScanEvent::Cancelled) => ScanPhase::Stopped,
        (_, ScanEvent::Filtered(_)) => ScanPhase::Discovering,
        (_, ScanEvent::Started(true)) => ScanPhase::Probing(ProbePhase::Waiting),
        (_, ScanEvent::Started(false)) => ScanPhase::Pausing,
        (_, ScanEvent::Paused) => ScanPhase::Discovering,
        (ScanPhase::Probing(probing), ScanEvent::Probed(event)) => scan_after_probe(
            probe::probe_next(probing, event),
        ),
        (ScanPhase::Claiming { address }, ScanEvent::Claimed(true)) => ScanPhase::Accepting {
            address,
        },
        _ => ScanPhase::Probing(ProbePhase::Waiting),
    }
}

/// Decides on the phase that follows.
pub fn scan_step(phase: ScanPhase, event: ScanEvent) -> (next: ScanPhase)
    requires
        scan_event_fits(phase, event),
    ensures
        next == scan_next(phase, event),
{
    match event {
        ScanEvent::Cancelled => ScanPhase::Stopped,
        ScanEvent::Filtered(_) => ScanPhase::Discovering,
        ScanEvent::Started(ok) => if ok {
            ScanPhase::Probing(ProbePhase::Waiting)
        } else {
            ScanPhase::Pausing
        },
        ScanEvent::Paused => ScanPhase::Discovering,
        ScanEvent::Probed(event) => match phase {
            ScanPhase::Probing(probing) => match probe::probe_step(probing, event) {
                ProbePhase::Ready { address } => ScanPhase::Claiming { address },
                ProbePhase::Ended => ScanPhase::Discovering,
                probing => ScanPhase::Probing(probing),
            },
            _ => ScanPhase::Probing(ProbePhase::Waiting),
        },
        ScanEvent::Claimed(claimed) => match phase {
            ScanPhase::Claiming { address } if claimed => ScanPhase::Accepting { address },
            _ => ScanPhase::Probing(ProbePhase::Waiting),
        },
        ScanEvent::Accepting => ScanPhase::Probing(ProbePhase::Waiting),
    }
}

/// The phase of a scan after a run of events.
pub open spec fn scan_run(events: Seq<ScanEvent>) -> ScanPhase
    decreases events.len(),
{
    if events.len() == 0 {
        ScanPhase::Filtering
    } else {
        scan_next(scan_run(events.drop_last()), events.last())
    }
}

/// Whether each event of a scan is one that its phase can bring.
pub open spec fn scan_run_fits(events: Seq<ScanEvent>) -> bool
    decreases events.len(),
{
    events.len() > 0 ==> scan_run_fits(events.drop_last()) && scan_event_fits(
        scan_run(events.drop_last()),
        events.last(),
    )
}

/// Only being cancelled stops a scan, and it can be cancelled whenever it looks
/// at devices.
pub proof fn law_scan_goes_on(phase: ScanPhase, event: ScanEvent)
    requires
        scan_event_fits(phase, event),
    ensures
        scan_next(phase, event) == ScanPhase::Stopped <==> event == ScanEvent::Cancelled,
        phase is Probing ==> scan_event_fits(phase, ScanEvent::Cancelled),
{
}

/// The events of a probe among those of a scan.
pub open spec fn probes_of(events: Seq<ScanEvent>) -> Seq<Option<ProbeEvent>> {
    events.map_values(
        |event: ScanEvent|
            match event {
                ScanEvent::Probed(event) => Some(event),
                _ => None,
            },
    )
}

/// The device that a scan looks at or is about to take in.
pub open spec fn probed(phase: ScanPhase) -> ProbePhase {
    match phase {
        ScanPhase::Probing(probing) => probing,
        ScanPhase::Claiming { address } => ProbePhase::Ready { address },
        _ => ProbePhase::Waiting,
    }
}

/// What a scan keeps while it looks at a device.
proof fn lemma_scan_probe(events: Seq<ScanEvent>)
    requires
        scan_run_fits(events),
    ensures
        probe::probe_tail(probes_of(events), probed(scan_run(events))),
    decreases events.len(),
{
    if events.len() > 0 {
        let before = events.drop_last();
        lemma_scan_probe(before);
        match events.last() {
            ScanEvent::Probed(event) => {
                probe::lemma_probe_tail(probes_of(before), probed(scan_run(before)), event);
                assert(probes_of(events) =~= probes_of(before).push(Some(event)));
            },
            _ => {},
        }
    }
}

/// A scan starts to accept a device only where the last five events are these:
/// the device came into view, was got hold of, advertised the service of peers,
/// had an address of a known type (`probe_tail` says so of these four), and was
/// not being accepted already.
pub proof fn law_scan_accepts_peers_only(events: Seq<ScanEvent>, address: u64)
    requires
        scan_run_fits(events),
        scan_run(events) == (ScanPhase::Accepting { address }),
    ensures
        events.len() >= 5,
        probe::probe_tail(probes_of(events.drop_last()), ProbePhase::Ready { address }),
        events.last() == ScanEvent::Claimed(true),
{
    let one = events.drop_last();
    assert(scan_run(one) == ScanPhase::Claiming { address });
    lemma_scan_probe(one);
}

/// One event more.
proof fn lemma_scan_push(events: Seq<ScanEvent>, event: ScanEvent)
    ensures
        scan_run(events.push(event)) == scan_next(scan_run(events), event),
        scan_run_fits(events.push(event)) <==> scan_run_fits(events) && scan_event_fits(
            scan_run(events),
            event,
        ),
{
    assert(events.push(event).drop_last() =~= events);
}

/// What a probe sees, as events of a scan.
pub open spec fn as_scan(probes: Seq<ProbeEvent>) -> Seq<ScanEvent> {
    probes.map_values(|event: ProbeEvent| ScanEvent::Probed(event))
}

/// A scan that looks at devices does what its probe does: it takes in the peer
/// that the probe has ready, starts the discovery anew where the probe is over, and
/// goes on as long as the probe does.
pub proof fn law_scan_follows_its_probe(events: Seq<ScanEvent>, probes: Seq<ProbeEvent>)
    requires
        scan_run_fits(events),
        scan_run(events) == ScanPhase::Probing(ProbePhase::Waiting),
        probe::probe_run_fits(probes),
    ensures
        scan_run_fits(events + as_scan(probes)),
        forall|address: u64|
            probe::probe_run(probes) == (ProbePhase::Ready { address }) <==> #[trigger] scan_run(
                events + as_scan(probes),
            ) == (ScanPhase::Claiming { address }),
        probe::probe_run(probes) == ProbePhase::Ended <==> scan_run(events + as_scan(probes))
            == ScanPhase::Discovering,
        probe::probe_run(probes) !is Ready && probe::probe_run(probes) != ProbePhase::Ended
            <==> scan_run(events + as_scan(probes)) == ScanPhase::Probing(
            probe::probe_run(probes),
        ),
    decreases probes.len(),
{
    if probes.len() == 0 {
        assert(events + as_scan(probes) =~= events);
    } else {
        let before = probes.drop_last();
        law_scan_follows_its_probe(events, before);
        let event = ScanEvent::Probed(probes.last());
        lemma_scan_push(events + as_scan(before), event);
        assert(events + as_scan(probes) =~= (events + as_scan(before)).push(event));
    }
}

/// Every peer that comes into view, whatever other services it tells, is accepted
/// unless it is being accepted already; either way the scan then goes on looking.
pub proof fn law_scan_accepts_every_peer(
    events: Seq<ScanEvent>,
    address: u64,
    uuids: Vec<u128>,
)
    requires
        scan_run_fits(events),
        scan_run(events) == ScanPhase::Probing(ProbePhase::Waiting),
        uuids@.contains(0x24A9597F_1060_41BB_AB31_B638662BDCCCu128),
    ensures
        ({
            let found = events + seq![
                ScanEvent::Probed(ProbeEvent::DeviceAdded { address }),
                ScanEvent::Probed(ProbeEvent::LookedUp(true)),
                ScanEvent::Probed(ProbeEvent::Uuids(Some(uuids))),
                ScanEvent::Probed(ProbeEvent::Type(true)),
            ];
            let taken = found.push(ScanEvent::Claimed(true));
            let known = found.push(ScanEvent::Claimed(false));
            let accepting = taken.push(ScanEvent::Accepting);
            &&& scan_run_fits(found) && scan_run(found) == (ScanPhase::Claiming { address })
            &&& scan_run_fits(taken) && scan_run(taken) == (ScanPhase::Accepting { address })
            &&& scan_run_fits(accepting) && scan_run(accepting) == ScanPhase::Probing(
                ProbePhase::Waiting,
            )
            &&& scan_run_fits(known) && scan_run(known) == ScanPhase::Probing(ProbePhase::Waiting)
        }),
{
    let probes = seq![
        ProbeEvent::DeviceAdded { address },
        ProbeEvent::LookedUp(true),
        ProbeEvent::Uuids(Some(uuids)),
        ProbeEvent::Type(true),
    ];
    probe::lemma_peer_is_ready(address, uuids);
    law_scan_follows_its_probe(events, probes);
    let found = events + seq![
        ScanEvent::Probed(ProbeEvent::DeviceAdded { address }),
        ScanEvent::Probed(ProbeEvent::LookedUp(true)),
        ScanEvent::Probed(ProbeEvent::Uuids(Some(uuids))),
        ScanEvent::Probed(ProbeEvent::Type(true)),
    ];
    assert(found =~= events + as_scan(probes));
    lemma_scan_push(found, ScanEvent::Claimed(true));
    lemma_scan_push(found, ScanEvent::Claimed(false));
    lemma_scan_push(found.push(ScanEvent::Claimed(true)), ScanEvent::Accepting);
}

/// A scan looks at devices as soon as a discovery starts, whether or not it could
/// be restricted; one that does not start is tried again after a pause, as often as
/// it takes.
pub proof fn law_scan_starts(filtered: bool, events: Seq<ScanEvent>)
    requires
        scan_run_fits(events),
        scan_run(events) == ScanPhase::Discovering,
    ensures
        scan_run_fits(seq![ScanEvent::Filtered(filtered)]),
        scan_run(seq![ScanEvent::Filtered(filtered)]) == ScanPhase::Discovering,
        scan_run_fits(events.push(ScanEvent::Started(true))),
        scan_run(events.push(ScanEvent::Started(true))) == ScanPhase::Probing(ProbePhase::Waiting),
        scan_run_fits(events.push(ScanEvent::Started(false)).push(ScanEvent::Paused)),
        scan_run(events.push(ScanEvent::Started(false))) == ScanPhase::Pausing,
        scan_run(events.push(ScanEvent::Started(false)).push(ScanEvent::Paused))
            == ScanPhase::Discovering,
{
    let none = Seq::<ScanEvent>::empty();
    assert(none.push(ScanEvent::Filtered(filtered)) =~= seq![ScanEvent::Filtered(filtered)]);
    lemma_scan_push(none, ScanEvent::Filtered(filtered));
    lemma_scan_push(events, ScanEvent::Started(true));
    lemma_scan_push(events, ScanEvent::Started(false));
    lemma_scan_push(events.push(ScanEvent::Started(false)), ScanEvent::Paused);
}

} // verus!
