//! The connecting side: finding a peer and opening a channel to it.
use vstd::prelude::*;
use crate::l2cap::adapter::Attempt;
use crate::l2cap::probe;
use crate::l2cap::probe::{ProbeEvent, ProbePhase};

verus! {

/// How long a search may take as a whole, in milliseconds.
pub const SEARCH_TIMEOUT_MS: u64 = 30_000;

/// What is to be done next to get a channel.
#[derive(Clone, Copy, PartialEq, Eq, Structural, Debug)]
pub enum SearchPhase {
    /// Open the adapter.
    Opening,
    /// Restrict the discovery to low-energy devices of the name.
    Filtering,
    /// Ask the adapter for its alias.
    Naming,
    /// Start the discovery.
    Discovering,
    /// Look at the devices that come into view.
    Probing(ProbePhase),
    /// Connect to the device at this address.
    Connecting { address: u64 },
    /// Open a channel to it, within `BLE_CONNECT_TIMEOUT_MS`.
    OpeningChannel { address: u64 },
    /// Nothing: there is a channel to the device at this address.
    Linked { address: u64 },
    /// Nothing: there is none.
    Failed(SearchFault),
}

/// Why there is no channel.
#[derive(Clone, Copy, PartialEq, Eq, Structural, Debug)]
pub enum SearchFault {
    /// There is no adapter.
    Adapter,
    /// The discovery cannot be restricted.
    Filter,
    /// The adapter has no alias.
    Alias,
    /// The discovery does not start.
    Discovery,
    /// The peer at this address cannot be connected.
    CannotConnect { address: u64 },
    /// The channel to this address took too long.
    ChannelTimedOut { address: u64 },
    /// The channel to this address cannot be opened.
    ChannelFailed { address: u64 },
    /// The discovery ended without a peer.
    NotFound,
    /// The search took too long.
    TimedOut,
}

/// How it went.
#[derive(Debug)]
pub enum SearchEvent {
    Opened(bool),
    Filtered(bool),
    Named(bool),
    Started(bool),
    Probed(ProbeEvent),
    Connected(bool),
    Channel(Attempt),
    /// `SEARCH_TIMEOUT_MS` have passed since the beginning.
    TimeUp,
}

/// Whether a search is over.
pub open spec fn search_is_over(phase: SearchPhase) -> bool {
    phase is Linked || phase is Failed
}

/// Whether an event is one that a phase can bring.
pub open spec fn search_event_fits(phase: SearchPhase, event: SearchEvent) -> bool {
    match event {
        SearchEvent::Opened(_) => phase == SearchPhase::Opening,
        SearchEvent::Filtered(_) => phase == SearchPhase::Filtering,
        SearchEvent::Named(_) => phase == SearchPhase::Naming,
        SearchEvent::Started(_) => phase == SearchPhase::Discovering,
        SearchEvent::Probed(event) => phase matches SearchPhase::Probing(probing)
            && probe::probe_event_fits(probing, event),
        SearchEvent::Connected(_) => phase is Connecting,
        SearchEvent::Channel(_) => phase is OpeningChannel,
        SearchEvent::TimeUp => !search_is_over(phase),
    }
}

/// The phase that follows a probe.
pub open spec fn search_after_probe(probing: ProbePhase) -> SearchPhase {
    match probing {
        ProbePhase::Ready { address } => SearchPhase::Connecting { address },
        ProbePhase::Ended => SearchPhase::Failed(SearchFault::NotFound),
        _ => SearchPhase::Probing(probing),
    }
}

/// The phase that follows. The first peer is taken: where it cannot be
/// connected or the channel cannot be opened, the search is over.
pub open spec fn search_next(phase: SearchPhase, event: SearchEvent) -> SearchPhase {
    match (phase, event) {
        (_, SearchEvent::TimeUp) => SearchPhase::Failed(SearchFault::TimedOut),
        (_, SearchEvent::Opened(ok)) => if ok {
            SearchPhase::Filtering
        } else {
            SearchPhase::Failed(SearchFault::Adapter)
        },
        (_, SearchEvent::Filtered(ok)) => if ok {
            SearchPhase::Naming
        } else {
            SearchPhase::Failed(SearchFault::Filter)
        },
        (_, SearchEvent::Named(ok)) => if ok {
            SearchPhase::Discovering
        } else {
            SearchPhase::Failed(SearchFault::Alias)
        },
        (_, SearchEvent::Started(ok)) => if ok {
            SearchPhase::Probing(ProbePhase::Waiting)
        } else {
            SearchPhase::Failed(SearchFault::Discovery)
        },
        (SearchPhase::Probing(probing), SearchEvent::Probed(event)) => search_after_probe(
            probe::probe_next(probing, event),
        ),
        (SearchPhase::Connecting { address }, SearchEvent::Connected(ok)) => if ok {
            SearchPhase::OpeningChannel { address }
        } else {
            SearchPhase::Failed(SearchFault::CannotConnect { address })
        },
        (SearchPhase::OpeningChannel { address }, SearchEvent::Channel(attempt)) => match attempt {
            Attempt::Done => SearchPhase::Linked { address },
            Attempt::Failed => SearchPhase::Failed(SearchFault::ChannelFailed { address }),
            Attempt::TimedOut => SearchPhase::Failed(SearchFault::ChannelTimedOut { address }),
        },
        _ => phase,
    }
}

/// Goes on after a step that the search cannot do without.
fn go_or_fail(ok: bool, go: SearchPhase, fault: SearchFault) -> (next: SearchPhase)
    ensures
        next == if ok {
            go
        } else {
            SearchPhase::Failed(fault)
        },
{
    if ok {
        go
    } else {
        SearchPhase::Failed(fault)
    }
}

/// Decides on the phase that follows.
pub fn search_step(phase: SearchPhase, event: SearchEvent) -> (next: SearchPhase)
    requires
        search_event_fits(phase, event),
    ensures
        next == search_next(phase, event),
{
    match event {
        SearchEvent::TimeUp => SearchPhase::Failed(SearchFault::TimedOut),
        SearchEvent::Opened(ok) => go_or_fail(ok, SearchPhase::Filtering, SearchFault::Adapter),
        SearchEvent::Filtered(ok) => go_or_fail(ok, SearchPhase::Naming, SearchFault::Filter),
        SearchEvent::Named(ok) => go_or_fail(ok, SearchPhase::Discovering, SearchFault::Alias),
        SearchEvent::Started(ok) => go_or_fail(
            ok,
            SearchPhase::Probing(ProbePhase::Waiting),
            SearchFault::Discovery,
        ),
        SearchEvent::Probed(event) => match phase {
            SearchPhase::Probing(probing) => match probe::probe_step(probing, event) {
                ProbePhase::Ready { address } => SearchPhase::Connecting { address },
                ProbePhase::Ended => SearchPhase::Failed(SearchFault::NotFound),
                probing => SearchPhase::Probing(probing),
            },
            _ => phase,
        },
        SearchEvent::Connected(ok) => match phase {
            SearchPhase::Connecting { address } => go_or_fail(
                ok,
                SearchPhase::OpeningChannel { address },
                SearchFault::CannotConnect { address },
            ),
            _ => phase,
        },
        SearchEvent::Channel(attempt) => match phase {
            SearchPhase::OpeningChannel { address } => match attempt {
                Attempt::Done => SearchPhase::Linked { address },
                Attempt::Failed => SearchPhase::Failed(SearchFault::ChannelFailed { address }),
                Attempt::TimedOut => SearchPhase::Failed(SearchFault::ChannelTimedOut { address }),
            },
            _ => phase,
        },
    }
}

/// The phase of a search after a run of events.
pub open spec fn search_run(events: Seq<SearchEvent>) -> SearchPhase
    decreases events.len(),
{
    if events.len() == 0 {
        SearchPhase::Opening
    } else {
        search_next(search_run(events.drop_last()), events.last())
    }
}

/// Whether each event of a search is one that its phase can bring.
pub open spec fn search_run_fits(events: Seq<SearchEvent>) -> bool
    decreases events.len(),
{
    events.len() > 0 ==> search_run_fits(events.drop_last()) && search_event_fits(
        search_run(events.drop_last()),
        events.last(),
    )
}

/// The events of a probe among those of a search.
pub open spec fn probes_of(events: Seq<SearchEvent>) -> Seq<Option<ProbeEvent>> {
    events.map_values(
        |event: SearchEvent|
            match event {
                SearchEvent::Probed(event) => Some(event),
                _ => None,
            },
    )
}

/// The device that a search looks at or is about to connect.
pub open spec fn probed(phase: SearchPhase) -> ProbePhase {
    match phase {
        SearchPhase::Probing(probing) => probing,
        SearchPhase::Connecting { address } => ProbePhase::Ready { address },
        _ => ProbePhase::Waiting,
    }
}

/// What a search keeps while it looks at a device.
proof fn lemma_search_probe(events: Seq<SearchEvent>)
    requires
        search_run_fits(events),
    ensures
        probe::probe_tail(probes_of(events), probed(search_run(events))),
    decreases events.len(),
{
    if events.len() > 0 {
        let before = events.drop_last();
        lemma_search_probe(before);
        match events.last() {
            SearchEvent::Probed(event) => {
                probe::lemma_probe_tail(probes_of(before), probed(search_run(before)), event);
                assert(probes_of(events) =~= probes_of(before).push(Some(event)));
            },
            _ => {},
        }
    }
}

/// A search ends with a channel only where the last six events are these: the
/// device came into view, was got hold of, advertised the service of peers, had
/// an address of a known type (`probe_tail` says so of these four), was
/// connected, and its channel was opened.
pub proof fn law_channel_leads_to_a_peer(events: Seq<SearchEvent>, address: u64)
    requires
        search_run_fits(events),
        search_run(events) == (SearchPhase::Linked { address }),
    ensures
        events.len() >= 6,
        probe::probe_tail(probes_of(events.take(events.len() - 2)), ProbePhase::Ready { address }),
        events[events.len() - 2] == SearchEvent::Connected(true),
        events[events.len() - 1] == SearchEvent::Channel(Attempt::Done),
{
    let one = events.drop_last();
    assert(search_run(one) == SearchPhase::OpeningChannel { address });
    assert(search_run_fits(one) && one.len() > 0);
    let two = one.drop_last();
    assert(search_run_fits(two) && search_event_fits(search_run(two), one.last()));
    assert(search_run(two) == SearchPhase::Connecting { address });
    lemma_search_probe(two);
    assert(one.last() == events[events.len() - 2]);
    assert(events.take(events.len() - 2) =~= two);
}

/// Whatever a search has come to, running out of time ends it as a failure, and
/// once it is over nothing more can happen in it.
pub proof fn law_search_ends(phase: SearchPhase, event: SearchEvent)
    ensures
        search_next(phase, SearchEvent::TimeUp) == SearchPhase::Failed(SearchFault::TimedOut),
        search_is_over(phase) ==> !search_event_fits(phase, event),
{
}

/// One event more.
proof fn lemma_search_push(events: Seq<SearchEvent>, event: SearchEvent)
    ensures
        search_run(events.push(event)) == search_next(search_run(events), event),
        search_run_fits(events.push(event)) <==> search_run_fits(events) && search_event_fits(
            search_run(events),
            event,
        ),
{
    assert(events.push(event).drop_last() =~= events);
}

/// What a probe sees, as events of a search.
pub open spec fn as_search(probes: Seq<ProbeEvent>) -> Seq<SearchEvent> {
    probes.map_values(|event: ProbeEvent| SearchEvent::Probed(event))
}

/// A search that looks at devices does what its probe does: it connects to the
/// peer that the probe has ready, is over without a peer where the probe is, and
/// goes on as long as the probe does.
pub proof fn law_search_follows_its_probe(events: Seq<SearchEvent>, probes: Seq<ProbeEvent>)
    requires
        search_run_fits(events),
        search_run(events) == SearchPhase::Probing(ProbePhase::Waiting),
        probe::probe_run_fits(probes),
    ensures
        search_run_fits(events + as_search(probes)),
        forall|address: u64|
            probe::probe_run(probes) == (ProbePhase::Ready { address }) <==> #[trigger] search_run(
                events + as_search(probes),
            ) == (SearchPhase::Connecting { address }),
        probe::probe_run(probes) == ProbePhase::Ended <==> search_run(events + as_search(probes))
            == SearchPhase::Failed(SearchFault::NotFound),
        probe::probe_run(probes) !is Ready && probe::probe_run(probes) != ProbePhase::Ended
            <==> search_run(events + as_search(probes)) == SearchPhase::Probing(
            probe::probe_run(probes),
        ),
    decreases probes.len(),
{
    if probes.len() == 0 {
        assert(events + as_search(probes) =~= events);
    } else {
        let before = probes.drop_last();
        law_search_follows_its_probe(events, before);
        let event = SearchEvent::Probed(probes.last());
        lemma_search_push(events + as_search(before), event);
        assert(events + as_search(probes) =~= (events + as_search(before)).push(event));
    }
}

/// The first peer that comes into view, whatever other services it tells, is
/// connected to, and the search ends with a channel to it. Where it cannot be
/// connected, or its channel fails or takes too long, the search ends without one,
/// and says why and of which peer.
pub proof fn law_search_takes_the_first_peer(
    events: Seq<SearchEvent>,
    address: u64,
    uuids: Vec<u128>,
)
    requires
        search_run_fits(events),
        search_run(events) == SearchPhase::Probing(ProbePhase::Waiting),
        uuids@.contains(0x24A9597F_1060_41BB_AB31_B638662BDCCCu128),
    ensures
        ({
            let found = events + seq![
                SearchEvent::Probed(ProbeEvent::DeviceAdded { address }),
                SearchEvent::Probed(ProbeEvent::LookedUp(true)),
                SearchEvent::Probed(ProbeEvent::Uuids(Some(uuids))),
                SearchEvent::Probed(ProbeEvent::Type(true)),
            ];
            let away = found.push(SearchEvent::Connected(false));
            let open = found.push(SearchEvent::Connected(true)).push(
                SearchEvent::Channel(Attempt::Done),
            );
            let closed = found.push(SearchEvent::Connected(true)).push(
                SearchEvent::Channel(Attempt::Failed),
            );
            let late = found.push(SearchEvent::Connected(true)).push(
                SearchEvent::Channel(Attempt::TimedOut),
            );
            &&& search_run_fits(found) && search_run(found) == (SearchPhase::Connecting { address })
            &&& search_run_fits(open) && search_run(open) == (SearchPhase::Linked { address })
            &&& search_run_fits(away) && search_run(away) == SearchPhase::Failed(
                SearchFault::CannotConnect { address },
            )
            &&& search_run_fits(closed) && search_run(closed) == SearchPhase::Failed(
                SearchFault::ChannelFailed { address },
            )
            &&& search_run_fits(late) && search_run(late) == SearchPhase::Failed(
                SearchFault::ChannelTimedOut { address },
            )
        }),
{
    let probes = seq![
        ProbeEvent::DeviceAdded { address },
        ProbeEvent::LookedUp(true),
        ProbeEvent::Uuids(Some(uuids)),
        ProbeEvent::Type(true),
    ];
    probe::lemma_peer_is_ready(address, uuids);
    law_search_follows_its_probe(events, probes);
    let found = events + seq![
        SearchEvent::Probed(ProbeEvent::DeviceAdded { address }),
        SearchEvent::Probed(ProbeEvent::LookedUp(true)),
        SearchEvent::Probed(ProbeEvent::Uuids(Some(uuids))),
        SearchEvent::Probed(ProbeEvent::Type(true)),
    ];
    assert(found =~= events + as_search(probes));
    lemma_search_push(found, SearchEvent::Connected(false));
    lemma_search_push(found, SearchEvent::Connected(true));
    let connected = found.push(SearchEvent::Connected(true));
    lemma_search_push(connected, SearchEvent::Channel(Attempt::Done));
    lemma_search_push(connected, SearchEvent::Channel(Attempt::Failed));
    lemma_search_push(connected, SearchEvent::Channel(Attempt::TimedOut));
}

/// A search opens the adapter, restricts the discovery, asks for the alias and
/// starts the discovery, in this order, and then looks at devices. Whichever of
/// these fails first ends it, and is the fault that is told.
pub proof fn law_search_prepares()
    ensures
        ({
            let opened = seq![SearchEvent::Opened(true)];
            let filtered = opened.push(SearchEvent::Filtered(true));
            let named = filtered.push(SearchEvent::Named(true));
            let started = named.push(SearchEvent::Started(true));
            let no_adapter = seq![SearchEvent::Opened(false)];
            let no_filter = opened.push(SearchEvent::Filtered(false));
            let no_alias = filtered.push(SearchEvent::Named(false));
            let no_start = named.push(SearchEvent::Started(false));
            &&& search_run_fits(started)
            &&& search_run(started) == SearchPhase::Probing(ProbePhase::Waiting)
            &&& search_run_fits(no_adapter)
            &&& search_run(no_adapter) == SearchPhase::Failed(SearchFault::Adapter)
            &&& search_run_fits(no_filter)
            &&& search_run(no_filter) == SearchPhase::Failed(SearchFault::Filter)
            &&& search_run_fits(no_alias)
            &&& search_run(no_alias) == SearchPhase::Failed(SearchFault::Alias)
            &&& search_run_fits(no_start)
            &&& search_run(no_start) == SearchPhase::Failed(SearchFault::Discovery)
        }),
{
    let none = Seq::<SearchEvent>::empty();
    let opened = seq![SearchEvent::Opened(true)];
    assert(none.push(SearchEvent::Opened(true)) =~= opened);
    assert(none.push(SearchEvent::Opened(false)) =~= seq![SearchEvent::Opened(false)]);
    lemma_search_push(none, SearchEvent::Opened(true));
    lemma_search_push(none, SearchEvent::Opened(false));
    lemma_search_push(opened, SearchEvent::Filtered(true));
    lemma_search_push(opened, SearchEvent::Filtered(false));
    let filtered = opened.push(SearchEvent::Filtered(true));
    lemma_search_push(filtered, SearchEvent::Named(true));
    lemma_search_push(filtered, SearchEvent::Named(false));
    let named = filtered.push(SearchEvent::Named(true));
    lemma_search_push(named, SearchEvent::Started(true));
    lemma_search_push(named, SearchEvent::Started(false));
}

/// A search that is not over can run out of time at any point, and has then failed
/// for that reason whatever it had come to; before that it is over only with a
/// channel or a fault of its own.
pub proof fn law_search_can_run_out_of_time(events: Seq<SearchEvent>)
    requires
        search_run_fits(events),
        search_run(events) !is Linked,
        search_run(events) !is Failed,
    ensures
        search_run_fits(events.push(SearchEvent::TimeUp)),
        search_run(events.push(SearchEvent::TimeUp)) == SearchPhase::Failed(SearchFault::TimedOut),
        forall|i: int| 0 <= i < events.len() ==> #[trigger] events[i] != SearchEvent::TimeUp,
{
    lemma_search_push(events, SearchEvent::TimeUp);
    lemma_search_had_time(events);
}

/// A search that is not over has not run out of time.
proof fn lemma_search_had_time(events: Seq<SearchEvent>)
    requires
        search_run_fits(events),
        search_run(events) !is Linked,
        search_run(events) !is Failed,
    ensures
        forall|i: int| 0 <= i < events.len() ==> #[trigger] events[i] != SearchEvent::TimeUp,
    decreases events.len(),
{
    if events.len() > 0 {
        lemma_search_had_time(events.drop_last());
        assert forall|i: int| 0 <= i < events.len() implies #[trigger] events[i]
            != SearchEvent::TimeUp by {
            if i < events.len() - 1 {
                assert(events[i] == events.drop_last()[i]);
            }
        }
    }
}

} // verus!
