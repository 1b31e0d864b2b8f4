//! The listening side: accepting one peer.
use vstd::prelude::*;
use crate::l2cap::adapter::Attempt;

verus! {

/// What is to be done next with a peer that was found.
#[derive(Clone, Copy, PartialEq, Eq, Structural, Debug)]
pub enum AcceptPhase {
    /// Connect to the device.
    Connecting,
    /// Open a channel to it, within the time for a handshake.
    OpeningChannel,
    /// Secure the channel, within the time for a handshake.
    Handshaking,
    /// Make a link of the secured channel.
    Building,
    /// See whether the listener is still there.
    CheckingListener,
    /// Hand the link over.
    Delivering,
    /// Disconnect from the device, whether or not that succeeds.
    Disconnecting,
    /// Let go of the address of the device, so that it can be found again.
    Releasing,
    /// Nothing.
    Done,
}

/// How it went.
#[derive(Clone, Copy, PartialEq, Eq, Structural, Debug)]
pub enum AcceptEvent {
    /// The device is connected, or is not.
    Connected(bool),
    /// How the attempt to open a channel went.
    Channel(Attempt),
    /// How the handshake went.
    Handshake(Attempt),
    /// There is a link, or the ends have no locator.
    Built(bool),
    /// Whether the listener was cancelled meanwhile.
    Cancelled(bool),
    /// The link was taken, or nobody takes links any more.
    Delivered(bool),
    /// The device was disconnected, or was not.
    Disconnected(bool),
    /// The address was let go of.
    Released,
}

/// Whether an event is one that a phase can bring.
pub open spec fn accept_event_fits(phase: AcceptPhase, event: AcceptEvent) -> bool {
    match event {
        AcceptEvent::Connected(_) => phase == AcceptPhase::Connecting,
        AcceptEvent::Channel(_) => phase == AcceptPhase::OpeningChannel,
        AcceptEvent::Handshake(_) => phase == AcceptPhase::Handshaking,
        AcceptEvent::Built(_) => phase == AcceptPhase::Building,
        AcceptEvent::Cancelled(_) => phase == AcceptPhase::CheckingListener,
        AcceptEvent::Delivered(_) => phase == AcceptPhase::Delivering,
        AcceptEvent::Disconnected(_) => phase == AcceptPhase::Disconnecting,
        AcceptEvent::Released => phase == AcceptPhase::Releasing,
    }
}

/// The phase that follows. A device is disconnected where its channel or the
/// handshake failed. A link is handed over unless the listener was cancelled.
pub open spec fn accept_next(event: AcceptEvent) -> AcceptPhase {
    match event {
        AcceptEvent::Connected(true) => AcceptPhase::OpeningChannel,
        AcceptEvent::Channel(Attempt::Done) => AcceptPhase::Handshaking,
        AcceptEvent::Handshake(Attempt::Done) => AcceptPhase::Building,
        AcceptEvent::Built(true) => AcceptPhase::CheckingListener,
        AcceptEvent::Cancelled(false) => AcceptPhase::Delivering,
        AcceptEvent::Channel(_) | AcceptEvent::Handshake(_) => AcceptPhase::Disconnecting,
        AcceptEvent::Released => AcceptPhase::Done,
        _ => AcceptPhase::Releasing,
    }
}

/// Decides on the phase that follows.
pub fn accept_step(phase: AcceptPhase, event: AcceptEvent) -> (next: AcceptPhase)
    requires
        accept_event_fits(phase, event),
    ensures
        next == accept_next(event),
{
    match event {
        AcceptEvent::Connected(ok) => if ok {
            AcceptPhase::OpeningChannel
        } else {
            AcceptPhase::Releasing
        },
        AcceptEvent::Channel(attempt) => match attempt {
            Attempt::Done => AcceptPhase::Handshaking,
            _ => AcceptPhase::Disconnecting,
        },
        AcceptEvent::Handshake(attempt) => match attempt {
            Attempt::Done => AcceptPhase::Building,
            _ => AcceptPhase::Disconnecting,
        },
        AcceptEvent::Built(ok) => if ok {
            AcceptPhase::CheckingListener
        } else {
            AcceptPhase::Releasing
        },
        AcceptEvent::Cancelled(cancelled) => if cancelled {
            AcceptPhase::Releasing
        } else {
            AcceptPhase::Delivering
        },
        AcceptEvent::Delivered(_) => AcceptPhase::Releasing,
        AcceptEvent::Disconnected(_) => AcceptPhase::Releasing,
        AcceptEvent::Released => AcceptPhase::Done,
    }
}

/// The phase after a run of events.
pub open spec fn accept_run(events: Seq<AcceptEvent>) -> AcceptPhase {
    if events.len() == 0 {
        AcceptPhase::Connecting
    } else {
        accept_next(events.last())
    }
}

/// Whether each event of a run is one that its phase can bring.
pub open spec fn accept_run_fits(events: Seq<AcceptEvent>) -> bool {
    forall|i: int|
        0 <= i < events.len() ==> accept_event_fits(
            accept_run(events.take(i)),
            #[trigger] events[i],
        )
}

/// The device cannot be connected.
pub open spec fn is_unconnected(events: Seq<AcceptEvent>) -> bool {
    &&& events.len() == 2
    &&& events[0] == AcceptEvent::Connected(false)
    &&& events[1] == AcceptEvent::Released
}

/// Its channel cannot be opened.
pub open spec fn is_without_channel(events: Seq<AcceptEvent>) -> bool {
    &&& events.len() == 4
    &&& events[0] == AcceptEvent::Connected(true)
    &&& events[1] matches AcceptEvent::Channel(attempt) && attempt != Attempt::Done
    &&& events[2] is Disconnected
    &&& events[3] == AcceptEvent::Released
}

/// The handshake fails.
pub open spec fn is_without_handshake(events: Seq<AcceptEvent>) -> bool {
    &&& events.len() == 5
    &&& events[0] == AcceptEvent::Connected(true)
    &&& events[1] == AcceptEvent::Channel(Attempt::Done)
    &&& events[2] matches AcceptEvent::Handshake(attempt) && attempt != Attempt::Done
    &&& events[3] is Disconnected
    &&& events[4] == AcceptEvent::Released
}

/// The channel is secured.
pub open spec fn is_secured(events: Seq<AcceptEvent>) -> bool {
    &&& events.len() > 3
    &&& events[0] == AcceptEvent::Connected(true)
    &&& events[1] == AcceptEvent::Channel(Attempt::Done)
    &&& events[2] == AcceptEvent::Handshake(Attempt::Done)
}

/// The link has no locators.
pub open spec fn is_without_locators(events: Seq<AcceptEvent>) -> bool {
    &&& is_secured(events)
    &&& events.len() == 5
    &&& events[3] == AcceptEvent::Built(false)
    &&& events[4] == AcceptEvent::Released
}

/// The listener is gone.
pub open spec fn is_discarded(events: Seq<AcceptEvent>) -> bool {
    &&& is_secured(events)
    &&& events.len() == 6
    &&& events[3] == AcceptEvent::Built(true)
    &&& events[4] == AcceptEvent::Cancelled(true)
    &&& events[5] == AcceptEvent::Released
}

/// The link is handed over.
pub open spec fn is_delivered(events: Seq<AcceptEvent>) -> bool {
    &&& is_secured(events)
    &&& events.len() == 7
    &&& events[3] == AcceptEvent::Built(true)
    &&& events[4] == AcceptEvent::Cancelled(false)
    &&& events[5] is Delivered
    &&& events[6] == AcceptEvent::Released
}

/// Every course that an acceptance can take.
pub open spec fn is_accept_course(events: Seq<AcceptEvent>) -> bool {
    ||| is_unconnected(events)
    ||| is_without_channel(events)
    ||| is_without_handshake(events)
    ||| is_without_locators(events)
    ||| is_discarded(events)
    ||| is_delivered(events)
}

/// One event of a run that fits.
proof fn lemma_accept_event(events: Seq<AcceptEvent>, i: int)
    requires
        accept_run_fits(events),
        0 <= i < events.len(),
    ensures
        i == 0 ==> events[0] is Connected,
        i > 0 ==> accept_event_fits(accept_next(events[i - 1]), events[i]),
{
    assert(accept_event_fits(accept_run(events.take(i)), events[i]));
    if i > 0 {
        assert(events.take(i).last() == events[i - 1]);
    }
}

/// An acceptance that is over took one of the courses, and let go of the address
/// at its very end and at no other time.
pub proof fn law_acceptance_takes_a_course(events: Seq<AcceptEvent>)
    requires
        accept_run_fits(events),
        accept_run(events) == AcceptPhase::Done,
    ensures
        is_accept_course(events),
        events.last() == AcceptEvent::Released,
        forall|i: int| 0 <= i < events.len() - 1 ==> events[i] != AcceptEvent::Released,
{
    let n = events.len() as int;
    assert forall|i: int| 0 <= i < n - 1 implies events[i] != AcceptEvent::Released by {
        lemma_accept_event(events, i + 1);
    }
    lemma_accept_event(events, 0);
    lemma_goes_on(events, 0);
    if events[0] == AcceptEvent::Connected(false) {
        lemma_ends(events, 1);
    } else {
        lemma_goes_on(events, 1);
        if events[1] == AcceptEvent::Channel(Attempt::Done) {
            lemma_channel_course(events);
        } else {
            lemma_goes_on(events, 2);
            lemma_ends(events, 3);
        }
    }
}

/// Where an event does not end an acceptance that is over, another one follows
/// that its phase can bring.
proof fn lemma_goes_on(events: Seq<AcceptEvent>, i: int)
    requires
        accept_run_fits(events),
        accept_run(events) == AcceptPhase::Done,
        0 <= i < events.len(),
        events[i] != AcceptEvent::Released,
    ensures
        i + 1 < events.len(),
        accept_event_fits(accept_next(events[i]), events[i + 1]),
{
    if i + 1 < events.len() {
        lemma_accept_event(events, i + 1);
    }
}

/// A release is the last event.
proof fn lemma_ends(events: Seq<AcceptEvent>, i: int)
    requires
        accept_run_fits(events),
        0 <= i < events.len(),
        events[i] == AcceptEvent::Released,
    ensures
        events.len() == i + 1,
{
    if i + 1 < events.len() {
        lemma_accept_event(events, i + 1);
    }
}

/// The courses of a device whose channel was opened.
proof fn lemma_channel_course(events: Seq<AcceptEvent>)
    requires
        accept_run_fits(events),
        accept_run(events) == AcceptPhase::Done,
        events.len() > 2,
        events[0] == AcceptEvent::Connected(true),
        events[1] == AcceptEvent::Channel(Attempt::Done),
    ensures
        is_without_handshake(events) || is_without_locators(events) || is_discarded(events)
            || is_delivered(events),
{
    lemma_goes_on(events, 1);
    lemma_goes_on(events, 2);
    if events[2] == AcceptEvent::Handshake(Attempt::Done) {
        lemma_secured_course(events);
    } else {
        lemma_goes_on(events, 3);
        lemma_ends(events, 4);
    }
}

/// The courses of a device whose channel was secured.
proof fn lemma_secured_course(events: Seq<AcceptEvent>)
    requires
        accept_run_fits(events),
        accept_run(events) == AcceptPhase::Done,
        is_secured(events),
    ensures
        is_without_locators(events) || is_discarded(events) || is_delivered(events),
{
    lemma_goes_on(events, 2);
    lemma_goes_on(events, 3);
    if events[3] == AcceptEvent::Built(false) {
        lemma_ends(events, 4);
    } else {
        lemma_goes_on(events, 4);
        if events[4] == AcceptEvent::Cancelled(true) {
            lemma_ends(events, 5);
        } else {
            lemma_goes_on(events, 5);
            lemma_ends(events, 6);
        }
    }
}

/// A link is handed over only where the device was connected, its channel
/// opened and secured, a link made of it and the listener found to be there.
pub proof fn law_only_secured_links_are_delivered(events: Seq<AcceptEvent>)
    requires
        accept_run_fits(events),
        accept_run(events) == AcceptPhase::Delivering,
    ensures
        events == seq![
            AcceptEvent::Connected(true),
            AcceptEvent::Channel(Attempt::Done),
            AcceptEvent::Handshake(Attempt::Done),
            AcceptEvent::Built(true),
            AcceptEvent::Cancelled(false),
        ],
{
    let n = events.len() as int;
    lemma_accept_event(events, n - 1);
    assert(n >= 2);
    lemma_accept_event(events, n - 2);
    assert(n >= 3);
    lemma_accept_event(events, n - 3);
    assert(n >= 4);
    lemma_accept_event(events, n - 4);
    assert(n >= 5);
    lemma_accept_event(events, n - 5);
    assert(n == 5);
}

/// What an acceptance does next depends on its last event alone: everything that
/// succeeds leads on towards the link, a channel or a handshake that fails or takes
/// too long leads to disconnecting, and everything else that ends an acceptance
/// leads to letting go of the address.
pub proof fn law_acceptance_follows_the_last_event(events: Seq<AcceptEvent>)
    requires
        accept_run_fits(events),
        events.len() > 0,
    ensures
        ({
            let phase = accept_run(events);
            let last = events.last();
            &&& phase == AcceptPhase::OpeningChannel <==> last == AcceptEvent::Connected(true)
            &&& phase == AcceptPhase::Handshaking <==> last == AcceptEvent::Channel(Attempt::Done)
            &&& phase == AcceptPhase::Building <==> last == AcceptEvent::Handshake(Attempt::Done)
            &&& phase == AcceptPhase::CheckingListener <==> last == AcceptEvent::Built(true)
            &&& phase == AcceptPhase::Delivering <==> last == AcceptEvent::Cancelled(false)
            &&& phase == AcceptPhase::Disconnecting <==> (last is Channel && last
                != AcceptEvent::Channel(Attempt::Done)) || (last is Handshake && last
                != AcceptEvent::Handshake(Attempt::Done))
            &&& phase == AcceptPhase::Releasing <==> last == AcceptEvent::Connected(false) || last
                == AcceptEvent::Built(false) || last == AcceptEvent::Cancelled(true)
                || last is Delivered || last is Disconnected
            &&& phase == AcceptPhase::Done <==> last == AcceptEvent::Released
        }),
{
}

/// One event more.
proof fn lemma_accept_push(events: Seq<AcceptEvent>, event: AcceptEvent)
    requires
        accept_run_fits(events),
        accept_event_fits(accept_run(events), event),
    ensures
        accept_run_fits(events.push(event)),
        accept_run(events.push(event)) == accept_next(event),
{
    let after = events.push(event);
    assert forall|i: int| 0 <= i < after.len() implies accept_event_fits(
        accept_run(after.take(i)),
        #[trigger] after[i],
    ) by {
        if i < events.len() {
            assert(after.take(i) =~= events.take(i));
            assert(after[i] == events[i]);
        } else {
            assert(after.take(i) =~= events);
        }
    }
}

/// Whether a run fits and is over.
pub open spec fn is_over(events: Seq<AcceptEvent>) -> bool {
    accept_run_fits(events) && accept_run(events) == AcceptPhase::Done
}

/// A device that cannot be connected is let go of, and one whose channel fails or
/// takes too long is disconnected, whether or not that works, and let go of.
pub proof fn law_unopened_acceptance_ends(failed: Attempt, disconnected: bool)
    requires
        failed != Attempt::Done,
    ensures
        is_over(Seq::empty().push(AcceptEvent::Connected(false)).push(AcceptEvent::Released)),
        is_over(
            Seq::empty().push(AcceptEvent::Connected(true)).push(
                AcceptEvent::Channel(failed),
            ).push(AcceptEvent::Disconnected(disconnected)).push(AcceptEvent::Released),
        ),
{
    let none = Seq::<AcceptEvent>::empty();
    lemma_accept_push(none, AcceptEvent::Connected(false));
    lemma_accept_push(none.push(AcceptEvent::Connected(false)), AcceptEvent::Released);
    lemma_accept_push(none, AcceptEvent::Connected(true));
    let a = none.push(AcceptEvent::Connected(true));
    lemma_accept_push(a, AcceptEvent::Channel(failed));
    let b = a.push(AcceptEvent::Channel(failed));
    lemma_accept_push(b, AcceptEvent::Disconnected(disconnected));
    let c = b.push(AcceptEvent::Disconnected(disconnected));
    lemma_accept_push(c, AcceptEvent::Released);
}

/// A device whose channel was opened is let go of in the end: after it was
/// disconnected, whether or not that worked, where the handshake fails or takes too
/// long; at once where the link has no locators, or where the listener is gone; and
/// otherwise after the link was handed over, whether or not anybody took it.
pub proof fn law_opened_acceptance_ends(
    events: Seq<AcceptEvent>,
    failed: Attempt,
    disconnected: bool,
    delivered: bool,
)
    requires
        accept_run_fits(events),
        accept_run(events) == AcceptPhase::OpeningChannel,
        failed != Attempt::Done,
    ensures
        ({
            let opened = events.push(AcceptEvent::Channel(Attempt::Done));
            let secured = opened.push(AcceptEvent::Handshake(Attempt::Done));
            let built = secured.push(AcceptEvent::Built(true));
            &&& is_over(
                opened.push(AcceptEvent::Handshake(failed)).push(
                    AcceptEvent::Disconnected(disconnected),
                ).push(AcceptEvent::Released),
            )
            &&& is_over(secured.push(AcceptEvent::Built(false)).push(AcceptEvent::Released))
            &&& is_over(built.push(AcceptEvent::Cancelled(true)).push(AcceptEvent::Released))
            &&& accept_run(built.push(AcceptEvent::Cancelled(false))) == AcceptPhase::Delivering
            &&& is_over(
                built.push(AcceptEvent::Cancelled(false)).push(
                    AcceptEvent::Delivered(delivered),
                ).push(AcceptEvent::Released),
            )
        }),
{
    lemma_accept_push(events, AcceptEvent::Channel(Attempt::Done));
    let opened = events.push(AcceptEvent::Channel(Attempt::Done));
    lemma_accept_push(opened, AcceptEvent::Handshake(failed));
    let refused = opened.push(AcceptEvent::Handshake(failed));
    lemma_accept_push(refused, AcceptEvent::Disconnected(disconnected));
    lemma_accept_push(
        refused.push(AcceptEvent::Disconnected(disconnected)),
        AcceptEvent::Released,
    );
    lemma_accept_push(opened, AcceptEvent::Handshake(Attempt::Done));
    let secured = opened.push(AcceptEvent::Handshake(Attempt::Done));
    lemma_accept_push(secured, AcceptEvent::Built(false));
    lemma_accept_push(secured.push(AcceptEvent::Built(false)), AcceptEvent::Released);
    lemma_accept_push(secured, AcceptEvent::Built(true));
    let built = secured.push(AcceptEvent::Built(true));
    lemma_accept_push(built, AcceptEvent::Cancelled(true));
    lemma_accept_push(built.push(AcceptEvent::Cancelled(true)), AcceptEvent::Released);
    lemma_accept_push(built, AcceptEvent::Cancelled(false));
    let wanted = built.push(AcceptEvent::Cancelled(false));
    lemma_accept_push(wanted, AcceptEvent::Delivered(delivered));
    lemma_accept_push(wanted.push(AcceptEvent::Delivered(delivered)), AcceptEvent::Released);
}

} // verus!
