//! Opening an adapter and connecting to a device.
use vstd::prelude::*;

verus! {

/// A step towards an adapter that has power.
#[derive(Clone, Copy, PartialEq, Eq, Structural, Debug)]
pub enum OpenStep {
    /// Open a session.
    OpenSession,
    /// Select the adapter that is asked for, or the default one.
    SelectAdapter,
    /// Ask whether the adapter has power.
    CheckPower,
    /// Power the adapter on.
    PowerOn,
}

/// How a step went.
#[derive(Clone, Copy, PartialEq, Eq, Structural, Debug)]
pub enum OpenAnswer {
    Done,
    /// Whether the adapter has power.
    Powered(bool),
    Failed,
}

/// What follows a step.
#[derive(Clone, Copy, PartialEq, Eq, Structural, Debug)]
pub enum OpenNext {
    /// Another step.
    Go(OpenStep),
    /// Nothing: the adapter is open.
    Open,
    /// Nothing: this step failed.
    GiveUp(OpenStep),
}

/// Whether an answer is one that a step can give.
pub open spec fn open_answer_fits(step: OpenStep, answer: OpenAnswer) -> bool {
    match answer {
        OpenAnswer::Done => step != OpenStep::CheckPower,
        OpenAnswer::Powered(_) => step == OpenStep::CheckPower,
        OpenAnswer::Failed => true,
    }
}

/// What follows a step: an adapter without power is powered on, and any failure
/// ends the opening.
pub open spec fn open_next(step: OpenStep, answer: OpenAnswer) -> OpenNext {
    match (step, answer) {
        (_, OpenAnswer::Failed) => OpenNext::GiveUp(step),
        (OpenStep::OpenSession, _) => OpenNext::Go(OpenStep::SelectAdapter),
        (OpenStep::SelectAdapter, _) => OpenNext::Go(OpenStep::CheckPower),
        (OpenStep::CheckPower, OpenAnswer::Powered(false)) => OpenNext::Go(OpenStep::PowerOn),
        (OpenStep::CheckPower, _) => OpenNext::Open,
        (OpenStep::PowerOn, _) => OpenNext::Open,
    }
}

/// Decides on what follows a step.
pub fn next_open_step(step: OpenStep, answer: OpenAnswer) -> (next: OpenNext)
    requires
        open_answer_fits(step, answer),
    ensures
        next == open_next(step, answer),
{
    match answer {
        OpenAnswer::Failed => OpenNext::GiveUp(step),
        OpenAnswer::Powered(false) => OpenNext::Go(OpenStep::PowerOn),
        OpenAnswer::Powered(true) => OpenNext::Open,
        OpenAnswer::Done => match step {
            OpenStep::OpenSession => OpenNext::Go(OpenStep::SelectAdapter),
            OpenStep::SelectAdapter => OpenNext::Go(OpenStep::CheckPower),
            _ => OpenNext::Open,
        },
    }
}

/// An adapter is open only where it was seen with power or was powered on, and
/// it is powered on only where it was seen without.
pub proof fn law_open_adapter_has_power(step: OpenStep, answer: OpenAnswer)
    requires
        open_answer_fits(step, answer),
    ensures
        open_next(step, answer) == OpenNext::Open <==> answer == OpenAnswer::Powered(true) || (step
            == OpenStep::PowerOn && answer == OpenAnswer::Done),
        open_next(step, answer) == OpenNext::Go(OpenStep::PowerOn) <==> answer
            == OpenAnswer::Powered(false),
{
}

/// An adapter is opened by its steps in this order, and the step that fails is the
/// one that is told: the session comes first, then the adapter, then its power.
pub proof fn law_adapter_is_opened_in_order(step: OpenStep, answer: OpenAnswer, other: OpenStep)
    requires
        open_answer_fits(step, answer),
    ensures
        open_next(step, answer) == OpenNext::Go(OpenStep::SelectAdapter) <==> step
            == OpenStep::OpenSession && answer == OpenAnswer::Done,
        open_next(step, answer) == OpenNext::Go(OpenStep::CheckPower) <==> step
            == OpenStep::SelectAdapter && answer == OpenAnswer::Done,
        open_next(step, answer) != OpenNext::Go(OpenStep::OpenSession),
        open_next(step, answer) == OpenNext::GiveUp(other) <==> answer == OpenAnswer::Failed
            && other == step,
        open_answer_fits(other, OpenAnswer::Failed),
{
}

/// How often it is tried to connect to a device.
pub const BLE_CONNECT_RETRIES: u8 = 5;

/// How long one attempt to connect to a device may take, in milliseconds.
pub const BLE_CONNECT_TIMEOUT_MS: u64 = 10_000;

/// The pause after a failed attempt, in milliseconds.
pub const BLE_CONNECT_PAUSE_MS: u64 = 1000;

/// How an attempt went that may take only so long.
#[derive(Clone, Copy, PartialEq, Eq, Structural, Debug)]
pub enum Attempt {
    Done,
    Failed,
    TimedOut,
}

/// What is to be done next to connect to a device.
#[derive(Clone, Copy, PartialEq, Eq, Structural, Debug)]
pub enum BlePhase {
    /// Ask whether the device is connected.
    Checking,
    /// Connect to the device within `BLE_CONNECT_TIMEOUT_MS`.
    Connecting,
    /// Wait for `BLE_CONNECT_PAUSE_MS`.
    Pausing,
    /// Nothing: the device is connected.
    Connected,
    /// Nothing: all attempts are used up.
    Exhausted,
}

/// How it went.
#[derive(Clone, Copy, PartialEq, Eq, Structural, Debug)]
pub enum BleEvent {
    /// Whether the device is connected, if that can be found out.
    Checked(Option<bool>),
    /// How the attempt to connect went.
    Attempted(Attempt),
    /// The pause is over.
    Paused,
}

/// A run of attempts to connect to a device.
#[derive(Clone, Copy, PartialEq, Eq, Structural, Debug)]
pub struct BleConnect {
    pub phase: BlePhase,
    /// Attempts left.
    pub retries: u8,
}

/// Whether an event is one that a phase can bring.
pub open spec fn ble_event_fits(phase: BlePhase, event: BleEvent) -> bool {
    match event {
        BleEvent::Checked(_) => phase == BlePhase::Checking,
        BleEvent::Attempted(_) => phase == BlePhase::Connecting,
        BleEvent::Paused => phase == BlePhase::Pausing,
    }
}

/// Whether an event is a failed attempt.
pub open spec fn is_failed_attempt(event: BleEvent) -> bool {
    event matches BleEvent::Attempted(attempt) && attempt != Attempt::Done
}

/// The phase that follows. Where it cannot be found out whether the device is
/// connected, it counts as not connected.
pub open spec fn ble_phase_after(retries: int, event: BleEvent) -> BlePhase {
    match event {
        BleEvent::Checked(Some(true)) => BlePhase::Connected,
        BleEvent::Checked(_) => if retries == 0 {
            BlePhase::Exhausted
        } else {
            BlePhase::Connecting
        },
        BleEvent::Attempted(Attempt::Done) => BlePhase::Connected,
        BleEvent::Attempted(_) => BlePhase::Pausing,
        BleEvent::Paused => BlePhase::Checking,
    }
}

/// The attempts left that follow.
pub open spec fn ble_retries_after(retries: int, event: BleEvent) -> int {
    retries - if is_failed_attempt(event) {
        1int
    } else {
        0int
    }
}

impl BleConnect {
    /// There is an attempt left where one is made.
    pub open spec fn wf(self) -> bool {
        self.phase == BlePhase::Connecting ==> self.retries > 0
    }

    /// A run that has not begun.
    pub fn new() -> (run: Self)
        ensures
            run.wf(),
            run.phase == BlePhase::Checking,
            run.retries == BLE_CONNECT_RETRIES,
    {
        BleConnect { phase: BlePhase::Checking, retries: BLE_CONNECT_RETRIES }
    }

    /// Takes in how the phase went.
    pub fn step(&mut self, event: BleEvent)
        requires
            old(self).wf(),
            ble_event_fits(old(self).phase, event),
        ensures
            final(self).wf(),
            final(self).phase == ble_phase_after(old(self).retries as int, event),
            final(self).retries == ble_retries_after(old(self).retries as int, event),
    {
        match event {
            BleEvent::Checked(Some(true)) => {
                self.phase = BlePhase::Connected;
            },
            BleEvent::Checked(_) => {
                if self.retries == 0 {
                    self.phase = BlePhase::Exhausted;
                } else {
                    self.phase = BlePhase::Connecting;
                }
            },
            BleEvent::Attempted(Attempt::Done) => {
                self.phase = BlePhase::Connected;
            },
            BleEvent::Attempted(_) => {
                self.retries = self.retries - 1;
                self.phase = BlePhase::Pausing;
            },
            BleEvent::Paused => {
                self.phase = BlePhase::Checking;
            },
        }
    }
}

/// The phase and the attempts left after a run of events.
pub open spec fn ble_run(events: Seq<BleEvent>) -> (BlePhase, int)
    decreases events.len(),
{
    if events.len() == 0 {
        (BlePhase::Checking, BLE_CONNECT_RETRIES as int)
    } else {
        let before = ble_run(events.drop_last());
        (
            ble_phase_after(before.1, events.last()),
            ble_retries_after(before.1, events.last()),
        )
    }
}

/// Whether each event of a run is one that its phase can bring.
pub open spec fn ble_run_fits(events: Seq<BleEvent>) -> bool
    decreases events.len(),
{
    events.len() > 0 ==> ble_run_fits(events.drop_last()) && ble_event_fits(
        ble_run(events.drop_last()).0,
        events.last(),
    )
}

/// How many events of a run are failed attempts.
pub open spec fn failed_attempts(events: Seq<BleEvent>) -> int
    decreases events.len(),
{
    if events.len() == 0 {
        0
    } else {
        failed_attempts(events.drop_last()) + if is_failed_attempt(events.last()) {
            1int
        } else {
            0int
        }
    }
}

/// A run ends after three events for each attempt and one more at the latest.
/// It gives a device up only after `BLE_CONNECT_RETRIES` failed attempts and a
/// last look at whether the device is connected, and it ends with a connected
/// device only where the last event says so.
pub proof fn law_connecting_is_bounded(events: Seq<BleEvent>)
    requires
        ble_run_fits(events),
    ensures
        ble_run(events).1 == BLE_CONNECT_RETRIES - failed_attempts(events),
        0 <= failed_attempts(events) <= BLE_CONNECT_RETRIES,
        events.len() <= 3 * BLE_CONNECT_RETRIES + 1,
        ble_run(events).0 == BlePhase::Exhausted ==> failed_attempts(events) == BLE_CONNECT_RETRIES
            && events.len() > 0 && events.last() is Checked && events.last() != BleEvent::Checked(
            Some(true),
        ),
        ble_run(events).0 == BlePhase::Connected ==> events.len() > 0 && (events.last()
            == BleEvent::Checked(Some(true)) || events.last() == BleEvent::Attempted(
            Attempt::Done,
        )),
{
    lemma_ble_run(events);
}

/// What a run keeps at every step.
proof fn lemma_ble_run(events: Seq<BleEvent>)
    requires
        ble_run_fits(events),
    ensures
        ({
            let (phase, retries) = ble_run(events);
            let failed = failed_attempts(events);
            &&& retries == BLE_CONNECT_RETRIES - failed
            &&& 0 <= failed <= BLE_CONNECT_RETRIES
            &&& phase == BlePhase::Checking ==> events.len() == 3 * failed
            &&& phase == BlePhase::Connecting ==> events.len() == 3 * failed + 1 && retries > 0
            &&& phase == BlePhase::Pausing ==> events.len() == 3 * failed - 1
            &&& phase == BlePhase::Connected ==> events.len() <= 3 * failed + 2 && events.len()
                <= 3 * BLE_CONNECT_RETRIES + 1 && events.len() > 0 && (events.last()
                == BleEvent::Checked(Some(true)) || events.last() == BleEvent::Attempted(
                Attempt::Done,
            ))
            &&& phase == BlePhase::Exhausted ==> events.len() == 3 * failed + 1 && retries == 0
                && events.last() is Checked && events.last() != BleEvent::Checked(Some(true))
        }),
    decreases events.len(),
{
    if events.len() > 0 {
        lemma_ble_run(events.drop_last());
    }
}

/// What a run does next depends on its last event and on how many attempts have
/// failed or timed out by then: a device that is seen connected, or that an attempt
/// connects, ends the run; one that is not, or of which that cannot be found out, is
/// connected to as long as fewer than five attempts have failed, and given up after
/// that; and every failed attempt is followed by a pause and another look.
pub proof fn law_ble_follows_the_last_event(events: Seq<BleEvent>)
    requires
        ble_run_fits(events),
        events.len() > 0,
    ensures
        ({
            let phase = ble_run(events).0;
            let last = events.last();
            let failed = events.filter(
                |event: BleEvent|
                    event == BleEvent::Attempted(Attempt::Failed) || event == BleEvent::Attempted(
                        Attempt::TimedOut,
                    ),
            ).len();
            let not_seen = last == BleEvent::Checked(Some(false)) || last == BleEvent::Checked(
                None,
            );
            &&& ble_run(events).1 == 5 - failed
            &&& phase == BlePhase::Connected <==> last == BleEvent::Checked(Some(true)) || last
                == BleEvent::Attempted(Attempt::Done)
            &&& phase == BlePhase::Connecting <==> not_seen && failed < 5
            &&& phase == BlePhase::Exhausted <==> not_seen && failed >= 5
            &&& phase == BlePhase::Pausing <==> last == BleEvent::Attempted(Attempt::Failed) || last
                == BleEvent::Attempted(Attempt::TimedOut)
            &&& phase == BlePhase::Checking <==> last == BleEvent::Paused
        }),
{
    lemma_ble_retries(events);
    lemma_ble_retries(events.drop_last());
    lemma_ble_run(events);
    lemma_ble_run(events.drop_last());
    reveal(Seq::filter);
}

/// The attempts left are those that have not failed.
proof fn lemma_ble_retries(events: Seq<BleEvent>)
    ensures
        ble_run(events).1 == 5 - events.filter(
            |event: BleEvent|
                event == BleEvent::Attempted(Attempt::Failed) || event == BleEvent::Attempted(
                    Attempt::TimedOut,
                ),
        ).len(),
    decreases events.len(),
{
    reveal(Seq::filter);
    if events.len() > 0 {
        lemma_ble_retries(events.drop_last());
    }
}

/// A device that is not connected, or of which that is not known, is connected to
/// while attempts are left. An attempt that succeeds ends the run with the device
/// connected; one that does not costs an attempt and leads back to looking.
pub proof fn law_ble_goes_on(events: Seq<BleEvent>, seen: Option<bool>, failed: Attempt)
    requires
        ble_run_fits(events),
        ble_run(events).0 == BlePhase::Checking,
        seen != Some(true),
        failed != Attempt::Done,
    ensures
        ble_run_fits(events.push(BleEvent::Checked(Some(true)))),
        ble_run(events.push(BleEvent::Checked(Some(true)))).0 == BlePhase::Connected,
        ble_run_fits(events.push(BleEvent::Checked(seen))),
        ble_run(events).1 == 0 ==> ble_run(events.push(BleEvent::Checked(seen))).0
            == BlePhase::Exhausted,
        ble_run(events).1 > 0 ==> ({
            let made = events + seq![BleEvent::Checked(seen), BleEvent::Attempted(Attempt::Done)];
            let again = events + seq![
                BleEvent::Checked(seen),
                BleEvent::Attempted(failed),
                BleEvent::Paused,
            ];
            &&& ble_run_fits(made) && ble_run(made).0 == BlePhase::Connected
            &&& ble_run_fits(again) && ble_run(again) == (
                BlePhase::Checking,
                ble_run(events).1 - 1,
            )
        }),
{
    lemma_ble_push(events, BleEvent::Checked(Some(true)));
    lemma_ble_push(events, BleEvent::Checked(seen));
    let looked = events.push(BleEvent::Checked(seen));
    lemma_ble_push(looked, BleEvent::Attempted(Attempt::Done));
    lemma_ble_push(looked, BleEvent::Attempted(failed));
    let tried = looked.push(BleEvent::Attempted(failed));
    lemma_ble_push(tried, BleEvent::Paused);
    lemma_ble_run(events);
    assert(looked.push(BleEvent::Attempted(Attempt::Done)) =~= events + seq![
        BleEvent::Checked(seen),
        BleEvent::Attempted(Attempt::Done),
    ]);
    assert(tried.push(BleEvent::Paused) =~= events + seq![
        BleEvent::Checked(seen),
        BleEvent::Attempted(failed),
        BleEvent::Paused,
    ]);
}

/// One event more.
proof fn lemma_ble_push(events: Seq<BleEvent>, event: BleEvent)
    ensures
        ble_run(events.push(event)) == (
            ble_phase_after(ble_run(events).1, event),
            ble_retries_after(ble_run(events).1, event),
        ),
        ble_run_fits(events.push(event)) <==> ble_run_fits(events) && ble_event_fits(
            ble_run(events).0,
            event,
        ),
{
    assert(events.push(event).drop_last() =~= events);
}

} // verus!
