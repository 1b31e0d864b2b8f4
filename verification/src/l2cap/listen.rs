//! Starting to listen.
use vstd::prelude::*;
use crate::listeners;
use crate::locator;
use crate::locator::EndPoint;

verus! {

/// What has to succeed before a listener is started.
#[derive(Clone, Copy, PartialEq, Eq, Structural, Debug)]
pub enum ListenStage {
    /// Planning by the endpoint.
    Plan,
    /// Setting TLS up.
    Build,
    /// Opening the adapter.
    Open,
}

/// What is to be done next to listen.
#[derive(Clone, Copy, PartialEq, Eq, Structural, Debug)]
pub enum ListenPhase {
    /// Get this done.
    Preparing(ListenStage),
    /// Start to scan.
    Starting,
    /// Nothing: the listener is running and filed.
    Listening,
    /// Nothing: this failed.
    Failed(ListenStage),
}

/// How it went.
pub enum ListenEvent<H> {
    /// It was done, or failed.
    Prepared(bool),
    /// The scan for an endpoint was started; its task is stopped and awaited by
    /// `handle`.
    Started { endpoint: EndPoint, handle: H },
}

/// Whether an event is one that a phase can bring.
pub open spec fn listen_event_fits<H>(phase: ListenPhase, event: ListenEvent<H>) -> bool {
    match event {
        ListenEvent::Prepared(_) => phase is Preparing,
        ListenEvent::Started { .. } => phase == ListenPhase::Starting,
    }
}

/// The phase that follows. What fails first ends it.
pub open spec fn listen_next<H>(phase: ListenPhase, event: ListenEvent<H>) -> ListenPhase {
    match (phase, event) {
        (_, ListenEvent::Started { .. }) => ListenPhase::Listening,
        (ListenPhase::Preparing(stage), ListenEvent::Prepared(false)) => ListenPhase::Failed(stage),
        (ListenPhase::Preparing(ListenStage::Plan), _) => ListenPhase::Preparing(
            ListenStage::Build,
        ),
        (ListenPhase::Preparing(ListenStage::Build), _) => ListenPhase::Preparing(
            ListenStage::Open,
        ),
        _ => ListenPhase::Starting,
    }
}

/// The endpoints that are told once an event was taken in.
pub open spec fn told_after<H>(told: Seq<Seq<char>>, event: ListenEvent<H>) -> Seq<Seq<char>> {
    match event {
        ListenEvent::Started { endpoint, .. } => listeners::others(
            told,
            locator::endpoint_locator(endpoint@),
        ).push(endpoint@),
        ListenEvent::Prepared(_) => told,
    }
}

/// The phase and the endpoints that are told after a run of events, given those
/// told before.
pub open spec fn listen_run<H>(told: Seq<Seq<char>>, events: Seq<ListenEvent<H>>) -> (
    ListenPhase,
    Seq<Seq<char>>,
)
    decreases events.len(),
{
    if events.len() == 0 {
        (ListenPhase::Preparing(ListenStage::Plan), told)
    } else {
        let before = listen_run(told, events.drop_last());
        (listen_next(before.0, events.last()), told_after(before.1, events.last()))
    }
}

/// Whether each event of a run is one that its phase can bring.
pub open spec fn listen_run_fits<H>(told: Seq<Seq<char>>, events: Seq<ListenEvent<H>>) -> bool
    decreases events.len(),
{
    events.len() > 0 ==> listen_run_fits(told, events.drop_last()) && listen_event_fits(
        listen_run(told, events.drop_last()).0,
        events.last(),
    )
}

/// How many stages come before one.
pub open spec fn stage_number(stage: ListenStage) -> nat {
    match stage {
        ListenStage::Plan => 0,
        ListenStage::Build => 1,
        ListenStage::Open => 2,
    }
}

/// Whether the first `n` events say that something was done.
pub open spec fn are_done<H>(events: Seq<ListenEvent<H>>, n: nat) -> bool {
    events.len() >= n && forall|i: int|
        0 <= i < n ==> #[trigger] events[i] == ListenEvent::<H>::Prepared(true)
}

/// Listening fails exactly at the first stage that does, and the endpoints told
/// are then those told before. Otherwise the listener is started, and the
/// endpoints told are those told before with another locator, and its own.
pub proof fn law_listener_is_told_or_nothing_changes<H>(
    told: Seq<Seq<char>>,
    events: Seq<ListenEvent<H>>,
)
    requires
        listen_run_fits(told, events),
    ensures
        match listen_run(told, events).0 {
            ListenPhase::Preparing(stage) => are_done(events, stage_number(stage)) && events.len()
                == stage_number(stage),
            ListenPhase::Failed(stage) => are_done(events, stage_number(stage)) && events.len()
                == stage_number(stage) + 1 && events.last() == ListenEvent::<H>::Prepared(false),
            ListenPhase::Starting => are_done(events, 3) && events.len() == 3,
            ListenPhase::Listening => are_done(events, 3) && events.len() == 4,
        },
        listen_run(told, events).0 != ListenPhase::Listening ==> listen_run(told, events).1 == told,
        listen_run(told, events).0 == ListenPhase::Listening ==> (events.last()
            matches ListenEvent::Started { endpoint, .. } && listen_run(told, events).1
            == listeners::others(told, locator::endpoint_locator(endpoint@)).push(endpoint@)),
    decreases events.len(),
{
    if events.len() > 0 {
        let before = events.drop_last();
        law_listener_is_told_or_nothing_changes(told, before);
        assert(forall|i: int| 0 <= i < before.len() ==> before[i] == events[i]);
        assert(events[events.len() - 1] == events.last());
    }
}

/// One event more.
proof fn lemma_listen_push<H>(
    told: Seq<Seq<char>>,
    events: Seq<ListenEvent<H>>,
    event: ListenEvent<H>,
)
    ensures
        listen_run(told, events.push(event)).0 == listen_next(listen_run(told, events).0, event),
        listen_run(told, events.push(event)).1 == told_after(listen_run(told, events).1, event),
        listen_run_fits(told, events.push(event)) <==> listen_run_fits(told, events)
            && listen_event_fits(listen_run(told, events).0, event),
{
    assert(events.push(event).drop_last() =~= events);
}

/// Where the plan, TLS and the adapter are all prepared, in this order, the listener
/// that is started then is told of. Where one of them fails, listening fails there.
pub proof fn law_listening_begins_or_fails<H>(
    told: Seq<Seq<char>>,
    endpoint: EndPoint,
    handle: H,
)
    ensures
        ({
            let planned = seq![ListenEvent::<H>::Prepared(true)];
            let built = planned.push(ListenEvent::Prepared(true));
            let opened = built.push(ListenEvent::Prepared(true));
            let started = opened.push(ListenEvent::Started { endpoint, handle });
            let unplanned = seq![ListenEvent::<H>::Prepared(false)];
            let unbuilt = planned.push(ListenEvent::Prepared(false));
            let unopened = built.push(ListenEvent::Prepared(false));
            &&& listen_run_fits(told, started)
            &&& listen_run(told, started).0 == ListenPhase::Listening
            &&& listen_run(told, started).1.last() == endpoint@
            &&& listen_run_fits(told, unplanned)
            &&& listen_run(told, unplanned) == (ListenPhase::Failed(ListenStage::Plan), told)
            &&& listen_run_fits(told, unbuilt)
            &&& listen_run(told, unbuilt) == (ListenPhase::Failed(ListenStage::Build), told)
            &&& listen_run_fits(told, unopened)
            &&& listen_run(told, unopened) == (ListenPhase::Failed(ListenStage::Open), told)
        }),
{
    let none = Seq::<ListenEvent<H>>::empty();
    let done = ListenEvent::<H>::Prepared(true);
    let failed = ListenEvent::<H>::Prepared(false);
    let planned = seq![done];
    assert(none.push(done) =~= planned);
    assert(none.push(failed) =~= seq![failed]);
    lemma_listen_push(told, none, done);
    lemma_listen_push(told, none, failed);
    lemma_listen_push(told, planned, done);
    lemma_listen_push(told, planned, failed);
    let built = planned.push(done);
    lemma_listen_push(told, built, done);
    lemma_listen_push(told, built, failed);
    let opened = built.push(done);
    lemma_listen_push(told, opened, ListenEvent::Started { endpoint, handle });
}

} // verus!
