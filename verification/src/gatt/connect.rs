//! The central side: finding a peripheral, connecting to it and finding its
//! characteristics.
use vstd::prelude::*;
use crate::gatt::service;

verus! {

/// How often a failed attempt to reach a device is made up for.
pub const CONNECT_RETRIES: i32 = 10;

/// The pause after a failed attempt, in milliseconds.
pub const CONNECT_PAUSE_MS: u64 = 1000;

/// What is to be done next to reach a device.
#[derive(Clone, Copy, PartialEq, Eq, Structural, Debug)]
pub enum ConnectPhase {
    /// Ask whether the device is connected.
    Checking,
    /// Ask for the services of the connected device.
    Resolving,
    /// Connect to the device.
    Connecting,
    /// Disconnect from the device, whether or not that succeeds.
    Disconnecting,
    /// Wait for `CONNECT_PAUSE_MS`.
    Pausing,
    /// Nothing: the services are known.
    Resolved,
    /// Nothing: the device cannot be reached.
    Failed,
}

/// How it went.
#[derive(Clone, Copy, PartialEq, Eq, Structural, Debug)]
pub enum ConnectEvent {
    /// The device is connected, or is not.
    Connected(bool),
    /// Whether the device is connected cannot be found out.
    StateUnknown,
    /// The services are known, or could not be resolved.
    Services(bool),
    /// The connection was made, or failed.
    Connection(bool),
    /// The device was asked to disconnect.
    Disconnected,
    /// The pause is over.
    Paused,
}

/// A run of attempts to reach a device.
#[derive(Clone, Copy, PartialEq, Eq, Structural, Debug)]
pub struct Connecting {
    pub phase: ConnectPhase,
    /// Attempts left. Failures to resolve services count too, but do not end
    /// the run, so this may fall below zero.
    pub retries: i32,
}

/// Whether an event is one that a phase can bring.
pub open spec fn connect_event_fits(phase: ConnectPhase, event: ConnectEvent) -> bool {
    match event {
        ConnectEvent::Connected(_) => phase == ConnectPhase::Checking,
        ConnectEvent::StateUnknown => phase == ConnectPhase::Checking,
        ConnectEvent::Services(_) => phase == ConnectPhase::Resolving,
        ConnectEvent::Connection(_) => phase == ConnectPhase::Connecting,
        ConnectEvent::Disconnected => phase == ConnectPhase::Disconnecting,
        ConnectEvent::Paused => phase == ConnectPhase::Pausing,
    }
}

/// Whether an event is a failure that uses up an attempt.
pub open spec fn is_failed_attempt(event: ConnectEvent) -> bool {
    event == ConnectEvent::Services(false) || event == ConnectEvent::Connection(false)
}

/// The phase that follows.
pub open spec fn connect_phase_after(retries: int, event: ConnectEvent) -> ConnectPhase {
    match event {
        ConnectEvent::Connected(true) => ConnectPhase::Resolving,
        ConnectEvent::Connected(false) => if retries > 0 {
            ConnectPhase::Connecting
        } else {
            ConnectPhase::Failed
        },
        ConnectEvent::StateUnknown => ConnectPhase::Failed,
        ConnectEvent::Services(true) => ConnectPhase::Resolved,
        ConnectEvent::Services(false) => ConnectPhase::Disconnecting,
        ConnectEvent::Connection(true) => ConnectPhase::Checking,
        ConnectEvent::Connection(false) => ConnectPhase::Pausing,
        ConnectEvent::Disconnected => ConnectPhase::Pausing,
        ConnectEvent::Paused => ConnectPhase::Checking,
    }
}

/// The attempts left that follow.
pub open spec fn connect_retries_after(retries: int, event: ConnectEvent) -> int {
    retries - if is_failed_attempt(event) {
        1int
    } else {
        0int
    }
}

impl Connecting {
    /// A run that has not begun.
    pub fn new() -> (run: Self)
        ensures
            run.phase == ConnectPhase::Checking,
            run.retries == CONNECT_RETRIES,
    {
        Connecting { phase: ConnectPhase::Checking, retries: CONNECT_RETRIES }
    }

    /// Takes in how the phase went.
    pub fn step(&mut self, event: ConnectEvent)
        requires
            connect_event_fits(old(self).phase, event),
            is_failed_attempt(event) ==> old(self).retries > i32::MIN,
        ensures
            final(self).phase == connect_phase_after(old(self).retries as int, event),
            final(self).retries == connect_retries_after(old(self).retries as int, event),
    {
        match event {
            ConnectEvent::Connected(true) => {
                self.phase = ConnectPhase::Resolving;
            },
            ConnectEvent::Connected(false) => {
                if self.retries > 0 {
                    self.phase = ConnectPhase::Connecting;
                } else {
                    self.phase = ConnectPhase::Failed;
                }
            },
            ConnectEvent::StateUnknown => {
                self.phase = ConnectPhase::Failed;
            },
            ConnectEvent::Services(true) => {
                self.phase = ConnectPhase::Resolved;
            },
            ConnectEvent::Services(false) => {
                self.retries = self.retries - 1;
                self.phase = ConnectPhase::Disconnecting;
            },
            ConnectEvent::Connection(true) => {
                self.phase = ConnectPhase::Checking;
            },
            ConnectEvent::Connection(false) => {
                self.retries = self.retries - 1;
                self.phase = ConnectPhase::Pausing;
            },
            ConnectEvent::Disconnected => {
                self.phase = ConnectPhase::Pausing;
            },
            ConnectEvent::Paused => {
                self.phase = ConnectPhase::Checking;
            },
        }
    }
}

/// The phase and the attempts left after a run of events.
pub open spec fn connect_run(events: Seq<ConnectEvent>) -> (ConnectPhase, int)
    decreases events.len(),
{
    if events.len() == 0 {
        (ConnectPhase::Checking, CONNECT_RETRIES as int)
    } else {
        let before = connect_run(events.drop_last());
        (
            connect_phase_after(before.1, events.last()),
            connect_retries_after(before.1, events.last()),
        )
    }
}

/// Whether each event of a run is one that its phase can bring.
pub open spec fn connect_run_fits(events: Seq<ConnectEvent>) -> bool
    decreases events.len(),
{
    events.len() > 0 ==> connect_run_fits(events.drop_last()) && connect_event_fits(
        connect_run(events.drop_last()).0,
        events.last(),
    )
}

/// How many events of a run are failed attempts.
pub open spec fn failed_attempts(events: Seq<ConnectEvent>) -> int
    decreases events.len(),
{
    if events.len() == 0 {
        0
    } else {
        failed_attempts(events.drop_last()) + if is_failed_attempt(events.last()) {
            1int
        } else {
            0int
        }
    }
}

/// A run gives a device up only where it cannot find out whether the device is
/// connected, or where the device is not connected after at least
/// `CONNECT_RETRIES` failed attempts. It never connects after that many.
pub proof fn law_connect_gives_up_late(events: Seq<ConnectEvent>)
    requires
        connect_run_fits(events),
    ensures
        connect_run(events).1 == CONNECT_RETRIES - failed_attempts(events),
        connect_run(events).0 == ConnectPhase::Failed ==> events.len() > 0 && (events.last()
            == ConnectEvent::StateUnknown || (events.last() == ConnectEvent::Connected(false)
            && failed_attempts(events) >= CONNECT_RETRIES)),
        connect_run(events).0 == ConnectPhase::Connecting ==> failed_attempts(events)
            < CONNECT_RETRIES,
        connect_run(events).0 == ConnectPhase::Resolved ==> events.len() >= 2 && events.last()
            == ConnectEvent::Services(true) && events[events.len() - 2] == ConnectEvent::Connected(
            true,
        ),
    decreases events.len(),
{
    if events.len() > 0 {
        let before = events.drop_last();
        law_connect_gives_up_late(before);
        if connect_run(before).0 == ConnectPhase::Resolving {
            lemma_resolving_follows_connected(before);
        }
    }
}

/// What a run does next depends on its last event and on how many attempts have
/// failed by then, counting services that could not be resolved and connections
/// that could not be made: services that were resolved end the run whatever came
/// before; a device that is not connected is connected to as long as fewer than
/// ten attempts have failed, and given up after that; and after a failed attempt
/// there is a pause, before which the device is disconnected where it was
/// connected.
pub proof fn law_connect_follows_the_last_event(events: Seq<ConnectEvent>)
    requires
        connect_run_fits(events),
        events.len() > 0,
    ensures
        ({
            let phase = connect_run(events).0;
            let last = events.last();
            let failed = events.filter(
                |event: ConnectEvent|
                    event == ConnectEvent::Services(false) || event == ConnectEvent::Connection(
                        false,
                    ),
            ).len();
            &&& connect_run(events).1 == 10 - failed
            &&& phase == ConnectPhase::Resolved <==> last == ConnectEvent::Services(true)
            &&& phase == ConnectPhase::Resolving <==> last == ConnectEvent::Connected(true)
            &&& phase == ConnectPhase::Connecting <==> last == ConnectEvent::Connected(false)
                && failed < 10
            &&& phase == ConnectPhase::Failed <==> last == ConnectEvent::StateUnknown || (last
                == ConnectEvent::Connected(false) && failed >= 10)
            &&& phase == ConnectPhase::Disconnecting <==> last == ConnectEvent::Services(false)
            &&& phase == ConnectPhase::Pausing <==> last == ConnectEvent::Connection(false) || last
                == ConnectEvent::Disconnected
            &&& phase == ConnectPhase::Checking <==> last == ConnectEvent::Connection(true) || last
                == ConnectEvent::Paused
        }),
{
    lemma_connect_retries(events);
    lemma_connect_retries(events.drop_last());
    reveal(Seq::filter);
}

/// The attempts left are those that have not failed.
proof fn lemma_connect_retries(events: Seq<ConnectEvent>)
    ensures
        connect_run(events).1 == 10 - events.filter(
            |event: ConnectEvent|
                event == ConnectEvent::Services(false) || event == ConnectEvent::Connection(false),
        ).len(),
    decreases events.len(),
{
    reveal(Seq::filter);
    if events.len() > 0 {
        lemma_connect_retries(events.drop_last());
    }
}

/// A device that is connected and tells its services is reached at once, however
/// many attempts have failed; and from every failed attempt the run comes back to
/// asking whether the device is connected.
pub proof fn law_connect_goes_on(events: Seq<ConnectEvent>)
    requires
        connect_run_fits(events),
        connect_run(events).0 == ConnectPhase::Checking,
    ensures
        ({
            let reached = events + seq![
                ConnectEvent::Connected(true),
                ConnectEvent::Services(true),
            ];
            connect_run_fits(reached) && connect_run(reached).0 == ConnectPhase::Resolved
        }),
        ({
            let unresolved = events + seq![
                ConnectEvent::Connected(true),
                ConnectEvent::Services(false),
                ConnectEvent::Disconnected,
                ConnectEvent::Paused,
            ];
            connect_run_fits(unresolved) && connect_run(unresolved) == (
                ConnectPhase::Checking,
                connect_run(events).1 - 1,
            )
        }),
        connect_run(events).1 > 0 ==> ({
            let made = events + seq![
                ConnectEvent::Connected(false),
                ConnectEvent::Connection(true),
            ];
            let refused = events + seq![
                ConnectEvent::Connected(false),
                ConnectEvent::Connection(false),
                ConnectEvent::Paused,
            ];
            &&& connect_run_fits(made) && connect_run(made) == (
                ConnectPhase::Checking,
                connect_run(events).1,
            )
            &&& connect_run_fits(refused) && connect_run(refused) == (
                ConnectPhase::Checking,
                connect_run(events).1 - 1,
            )
        }),
{
    let seen = events.push(ConnectEvent::Connected(true));
    lemma_connect_push(events, ConnectEvent::Connected(true));
    lemma_connect_push(seen, ConnectEvent::Services(true));
    assert(seen.push(ConnectEvent::Services(true)) =~= events + seq![
        ConnectEvent::Connected(true),
        ConnectEvent::Services(true),
    ]);
    let unresolved = seen.push(ConnectEvent::Services(false));
    lemma_connect_push(seen, ConnectEvent::Services(false));
    lemma_connect_push(unresolved, ConnectEvent::Disconnected);
    let left = unresolved.push(ConnectEvent::Disconnected);
    lemma_connect_push(left, ConnectEvent::Paused);
    assert(left.push(ConnectEvent::Paused) =~= events + seq![
        ConnectEvent::Connected(true),
        ConnectEvent::Services(false),
        ConnectEvent::Disconnected,
        ConnectEvent::Paused,
    ]);
    let away = events.push(ConnectEvent::Connected(false));
    lemma_connect_push(events, ConnectEvent::Connected(false));
    lemma_connect_push(away, ConnectEvent::Connection(true));
    assert(away.push(ConnectEvent::Connection(true)) =~= events + seq![
        ConnectEvent::Connected(false),
        ConnectEvent::Connection(true),
    ]);
    let refused = away.push(ConnectEvent::Connection(false));
    lemma_connect_push(away, ConnectEvent::Connection(false));
    lemma_connect_push(refused, ConnectEvent::Paused);
    assert(refused.push(ConnectEvent::Paused) =~= events + seq![
        ConnectEvent::Connected(false),
        ConnectEvent::Connection(false),
        ConnectEvent::Paused,
    ]);
}

/// One event more.
proof fn lemma_connect_push(events: Seq<ConnectEvent>, event: ConnectEvent)
    ensures
        connect_run(events.push(event)) == (
            connect_phase_after(connect_run(events).1, event),
            connect_retries_after(connect_run(events).1, event),
        ),
        connect_run_fits(events.push(event)) <==> connect_run_fits(events) && connect_event_fits(
            connect_run(events).0,
            event,
        ),
{
    assert(events.push(event).drop_last() =~= events);
}

/// Services are asked for only right after the device was seen connected.
proof fn lemma_resolving_follows_connected(events: Seq<ConnectEvent>)
    requires
        connect_run(events).0 == ConnectPhase::Resolving,
    ensures
        events.len() > 0 && events.last() == ConnectEvent::Connected(true),
{
}

/// The part that a characteristic plays for a link.
#[derive(Clone, Copy, PartialEq, Eq, Structural, Debug)]
pub enum CharacteristicRole {
    /// The link writes to it.
    Writer,
    /// The link reads from it.
    Reader,
    /// None.
    Unrelated,
}

/// The part that the characteristic `uuid` of the service `service_uuid` plays.
pub open spec fn characteristic_role(service_uuid: u128, uuid: u128) -> CharacteristicRole {
    if service_uuid != service::SERVICE_UUID {
        CharacteristicRole::Unrelated
    } else if uuid == service::RX_CHAR_UUID {
        CharacteristicRole::Writer
    } else if uuid == service::TX_CHAR_UUID {
        CharacteristicRole::Reader
    } else {
        CharacteristicRole::Unrelated
    }
}

/// Tells the part that a characteristic plays. What the peripheral receives on
/// is what the central writes to.
pub fn role_of(service_uuid: u128, uuid: u128) -> (role: CharacteristicRole)
    ensures
        role == characteristic_role(service_uuid, uuid),
{
    if service_uuid != service::SERVICE_UUID {
        CharacteristicRole::Unrelated
    } else if uuid == service::RX_CHAR_UUID {
        CharacteristicRole::Writer
    } else if uuid == service::TX_CHAR_UUID {
        CharacteristicRole::Reader
    } else {
        CharacteristicRole::Unrelated
    }
}

/// A characteristic plays a part exactly where it belongs to the Zenoh service: the
/// one that peripherals receive on is written to, the one that they send on is
/// read from.
pub proof fn law_only_the_service_plays_a_part(service_uuid: u128, uuid: u128)
    ensures
        characteristic_role(service_uuid, uuid) == CharacteristicRole::Writer <==> service_uuid
            == 0x24A9597F_1060_41BB_AB31_B638662BDCCC && uuid
            == 0x7E54E1BC_82BF_4B0E_9B3A_3C187934BD89,
        characteristic_role(service_uuid, uuid) == CharacteristicRole::Reader <==> service_uuid
            == 0x24A9597F_1060_41BB_AB31_B638662BDCCC && uuid
            == 0xF47EA3E5_4D04_4EEE_9ACA_E397C4408952,
{
}

/// The characteristics that were found so far.
pub struct CharacteristicSearch<W, R> {
    pub writer: Option<W>,
    pub reader: Option<R>,
}

impl<W, R> CharacteristicSearch<W, R> {
    /// A search that has found nothing.
    pub fn new() -> (search: Self)
        ensures
            search.writer is None,
            search.reader is None,
    {
        CharacteristicSearch { writer: None, reader: None }
    }

    /// Keeps a writer, in place of an earlier one.
    pub fn keep_writer(&mut self, writer: W)
        ensures
            final(self).writer == Some(writer),
            final(self).reader == old(self).reader,
    {
        self.writer = Some(writer);
    }

    /// Keeps a reader, in place of an earlier one.
    pub fn keep_reader(&mut self, reader: R)
        ensures
            final(self).reader == Some(reader),
            final(self).writer == old(self).writer,
    {
        self.reader = Some(reader);
    }

    /// Ends the search. A device with only one of the two is not one of ours.
    pub fn finish(self) -> (found: Option<(W, R)>)
        ensures
            found is Some <==> self.writer is Some && self.reader is Some,
            found matches Some((writer, reader)) ==> self.writer == Some(writer) && self.reader
                == Some(reader),
            found == both(self.writer, self.reader),
    {
        match (self.writer, self.reader) {
            (Some(writer), Some(reader)) => Some((writer, reader)),
            _ => None,
        }
    }
}

/// Both of two things, where there are both.
pub open spec fn both<W, R>(writer: Option<W>, reader: Option<R>) -> Option<(W, R)> {
    match (writer, reader) {
        (Some(writer), Some(reader)) => Some((writer, reader)),
        _ => None,
    }
}

/// A device is one of ours exactly where it has both a characteristic to write to and
/// one to read from, and these are the ones that are used.
pub proof fn law_device_has_both_characteristics<W, R>(writer: W, reader: R)
    ensures
        both(Some(writer), Some(reader)) == Some((writer, reader)),
        both::<W, R>(None, Some(reader)) is None,
        both::<W, R>(Some(writer), None) is None,
        both::<W, R>(None, None) is None,
{
}

/// A step before devices come into view.
#[derive(Clone, Copy, PartialEq, Eq, Structural, Debug)]
pub enum FindStep {
    OpenSession,
    /// Select the adapter that is asked for, or the default one.
    SelectAdapter,
    /// Ask the adapter for its alias, which is where the link comes from.
    ReadAlias,
    PowerOn,
    /// Restrict the discovery to low-energy devices of the name.
    SetFilter,
    StartDiscovery,
}

/// What is to be done next to find a device.
#[derive(Clone, Copy, PartialEq, Eq, Structural, Debug)]
pub enum FindPhase {
    /// Take this step.
    Preparing(FindStep),
    /// Nothing: this step failed.
    Unprepared(FindStep),
    /// Wait for the next discovery event.
    Waiting,
    /// Get hold of the device at this address.
    LookingUp { address: u64 },
    /// Connect to the device at this address.
    Trying { address: u64 },
    /// Nothing: the device at this address is connected.
    Found { address: u64 },
    /// Nothing: the device at this address could not be got hold of.
    LookupFailed { address: u64 },
    /// Nothing: the discovery ended without a device.
    NotFound,
}

/// How it went.
#[derive(Clone, Copy, PartialEq, Eq, Structural, Debug)]
pub enum FindEvent {
    /// The step was taken, or failed.
    Prepared(bool),
    /// A device has come into view.
    DeviceAdded { address: u64 },
    /// Anything else has happened.
    Other,
    /// The discovery is over.
    Ended,
    /// The device was got hold of, or was not.
    LookedUp(bool),
    /// The device was connected and is one of ours, or is not.
    Tried(bool),
}

/// Whether an event is one that a phase can bring.
pub open spec fn find_event_fits(phase: FindPhase, event: FindEvent) -> bool {
    match event {
        FindEvent::Prepared(_) => phase is Preparing,
        FindEvent::DeviceAdded { .. } => phase == FindPhase::Waiting,
        FindEvent::Other => phase == FindPhase::Waiting,
        FindEvent::Ended => phase == FindPhase::Waiting,
        FindEvent::LookedUp(_) => phase is LookingUp,
        FindEvent::Tried(_) => phase is Trying,
    }
}

/// The phase that follows a step. The adapter is powered on in any case.
pub open spec fn find_after_step(step: FindStep) -> FindPhase {
    match step {
        FindStep::OpenSession => FindPhase::Preparing(FindStep::SelectAdapter),
        FindStep::SelectAdapter => FindPhase::Preparing(FindStep::ReadAlias),
        FindStep::ReadAlias => FindPhase::Preparing(FindStep::PowerOn),
        FindStep::PowerOn => FindPhase::Preparing(FindStep::SetFilter),
        FindStep::SetFilter => FindPhase::Preparing(FindStep::StartDiscovery),
        FindStep::StartDiscovery => FindPhase::Waiting,
    }
}

/// The phase that follows: a step that fails ends the search, the first device
/// that can be connected is taken, one that is not ours is passed over, and one
/// that cannot be got hold of ends the search.
pub open spec fn find_next(phase: FindPhase, event: FindEvent) -> FindPhase {
    match (phase, event) {
        (FindPhase::Preparing(step), FindEvent::Prepared(true)) => find_after_step(step),
        (FindPhase::Preparing(step), FindEvent::Prepared(false)) => FindPhase::Unprepared(step),
        (_, FindEvent::DeviceAdded { address }) => FindPhase::LookingUp { address },
        (_, FindEvent::Other) => FindPhase::Waiting,
        (_, FindEvent::Ended) => FindPhase::NotFound,
        (FindPhase::LookingUp { address }, FindEvent::LookedUp(true)) => FindPhase::Trying {
            address,
        },
        (FindPhase::LookingUp { address }, FindEvent::LookedUp(false)) => FindPhase::LookupFailed {
            address,
        },
        (FindPhase::Trying { address }, FindEvent::Tried(true)) => FindPhase::Found { address },
        (FindPhase::Trying { address }, FindEvent::Tried(false)) => FindPhase::Waiting,
        _ => phase,
    }
}

/// Decides on the phase that follows in the search for a device.
pub fn find_step(phase: FindPhase, event: FindEvent) -> (next: FindPhase)
    requires
        find_event_fits(phase, event),
    ensures
        next == find_next(phase, event),
{
    match event {
        FindEvent::Prepared(ok) => match phase {
            FindPhase::Preparing(step) => if ok {
                match step {
                    FindStep::OpenSession => FindPhase::Preparing(FindStep::SelectAdapter),
                    FindStep::SelectAdapter => FindPhase::Preparing(FindStep::ReadAlias),
                    FindStep::ReadAlias => FindPhase::Preparing(FindStep::PowerOn),
                    FindStep::PowerOn => FindPhase::Preparing(FindStep::SetFilter),
                    FindStep::SetFilter => FindPhase::Preparing(FindStep::StartDiscovery),
                    FindStep::StartDiscovery => FindPhase::Waiting,
                }
            } else {
                FindPhase::Unprepared(step)
            },
            _ => phase,
        },
        FindEvent::DeviceAdded { address } => FindPhase::LookingUp { address },
        FindEvent::Other => FindPhase::Waiting,
        FindEvent::Ended => FindPhase::NotFound,
        FindEvent::LookedUp(ok) => match phase {
            FindPhase::LookingUp { address } => if ok {
                FindPhase::Trying { address }
            } else {
                FindPhase::LookupFailed { address }
            },
            _ => phase,
        },
        FindEvent::Tried(ok) => match phase {
            FindPhase::Trying { address } => if ok {
                FindPhase::Found { address }
            } else {
                FindPhase::Waiting
            },
            _ => phase,
        },
    }
}

/// The phase of a search after a run of events.
pub open spec fn find_run(events: Seq<FindEvent>) -> FindPhase
    decreases events.len(),
{
    if events.len() == 0 {
        FindPhase::Preparing(FindStep::OpenSession)
    } else {
        find_next(find_run(events.drop_last()), events.last())
    }
}

/// Whether each event of a search is one that its phase can bring.
pub open spec fn find_run_fits(events: Seq<FindEvent>) -> bool
    decreases events.len(),
{
    events.len() > 0 ==> find_run_fits(events.drop_last()) && find_event_fits(
        find_run(events.drop_last()),
        events.last(),
    )
}

/// A search ends with a device only where that device came into view, was got
/// hold of and was then connected, one right after the other.
pub proof fn law_find_takes_a_connected_device(events: Seq<FindEvent>, address: u64)
    requires
        find_run_fits(events),
        find_run(events) == (FindPhase::Found { address }),
    ensures
        events.len() >= 3,
        events[events.len() - 3] == (FindEvent::DeviceAdded { address }),
        events[events.len() - 2] == FindEvent::LookedUp(true),
        events[events.len() - 1] == FindEvent::Tried(true),
{
    let one = events.drop_last();
    assert(find_run(one) == FindPhase::Trying { address });
    assert(find_run_fits(one) && one.len() > 0);
    let two = one.drop_last();
    assert(find_run_fits(two) && find_event_fits(find_run(two), one.last()));
    assert(find_run(two) == FindPhase::LookingUp { address });
    assert(two.len() > 0);
    assert(one.last() == events[events.len() - 2]);
    assert(two.last() == events[events.len() - 3]);
    assert(find_event_fits(find_run(two.drop_last()), two.last()));
}

/// What a search that is still preparing has been through: one step taken for
/// each event.
proof fn lemma_find_prepares(events: Seq<FindEvent>)
    requires
        find_run_fits(events),
    ensures
        match find_run(events) {
            FindPhase::Preparing(step) => events == Seq::new(
                find_step_number(step),
                |i: int| FindEvent::Prepared(true),
            ),
            FindPhase::Unprepared(step) => events == Seq::new(
                find_step_number(step),
                |i: int| FindEvent::Prepared(true),
            ).push(FindEvent::Prepared(false)),
            _ => events.len() >= 6 && events.take(6) == Seq::new(
                6,
                |i: int| FindEvent::Prepared(true),
            ),
        },
    decreases events.len(),
{
    let all = Seq::new(6, |i: int| FindEvent::Prepared(true));
    if events.len() > 0 {
        let before = events.drop_last();
        lemma_find_prepares(before);
        assert(events =~= before.push(events.last()));
        match find_run(before) {
            FindPhase::Preparing(step) => {
                if events.last() == FindEvent::Prepared(true) {
                    assert(events =~= Seq::new(
                        find_step_number(step) + 1,
                        |i: int| FindEvent::Prepared(true),
                    ));
                    if step == FindStep::StartDiscovery {
                        assert(events.take(6) =~= all);
                    }
                }
            },
            FindPhase::Unprepared(_) => {},
            _ => {
                assert(events.take(6) =~= before.take(6));
            },
        }
    } else {
        assert(events =~= Seq::new(0, |i: int| FindEvent::Prepared(true)));
    }
}

/// The place of a step in its order.
pub open spec fn find_step_number(step: FindStep) -> nat {
    match step {
        FindStep::OpenSession => 0,
        FindStep::SelectAdapter => 1,
        FindStep::ReadAlias => 2,
        FindStep::PowerOn => 3,
        FindStep::SetFilter => 4,
        FindStep::StartDiscovery => 5,
    }
}

/// A search looks at devices only after all of its steps were taken, in their
/// order; and where a step fails, all steps before it were taken and none after.
pub proof fn law_find_prepares_first(events: Seq<FindEvent>)
    requires
        find_run_fits(events),
    ensures
        match find_run(events) {
            FindPhase::Preparing(step) => events.len() == find_step_number(step),
            FindPhase::Unprepared(step) => events.len() == find_step_number(step) + 1
                && events.last() == FindEvent::Prepared(false),
            _ => events.len() >= 6 && forall|i: int|
                0 <= i < 6 ==> #[trigger] events[i] == FindEvent::Prepared(true),
        },
{
    lemma_find_prepares(events);
    match find_run(events) {
        FindPhase::Preparing(_) => {},
        FindPhase::Unprepared(_) => {},
        _ => {
            assert forall|i: int| 0 <= i < 6 implies #[trigger] events[i] == FindEvent::Prepared(
                true,
            ) by {
                assert(events.take(6)[i] == events[i]);
            }
        },
    }
}

/// One event more.
proof fn lemma_find_push(events: Seq<FindEvent>, event: FindEvent)
    ensures
        find_run(events.push(event)) == find_next(find_run(events), event),
        find_run_fits(events.push(event)) <==> find_run_fits(events) && find_event_fits(
            find_run(events),
            event,
        ),
{
    assert(events.push(event).drop_last() =~= events);
}

/// While a search waits, the first device that can be connected is taken, under
/// the address at which it came into view. One that is not ours is passed over,
/// and so is anything else that happens; a device that cannot be got hold of ends
/// the search, and so does the end of the discovery.
pub proof fn law_find_takes_the_first_device(events: Seq<FindEvent>, address: u64)
    requires
        find_run_fits(events),
        find_run(events) == FindPhase::Waiting,
    ensures
        ({
            let lost = events + seq![
                FindEvent::DeviceAdded { address },
                FindEvent::LookedUp(false),
            ];
            let ours = events + seq![
                FindEvent::DeviceAdded { address },
                FindEvent::LookedUp(true),
                FindEvent::Tried(true),
            ];
            let another = events + seq![
                FindEvent::DeviceAdded { address },
                FindEvent::LookedUp(true),
                FindEvent::Tried(false),
            ];
            &&& find_run_fits(ours) && find_run(ours) == FindPhase::Found { address }
            &&& find_run_fits(another) && find_run(another) == FindPhase::Waiting
            &&& find_run_fits(lost) && find_run(lost) == FindPhase::LookupFailed { address }
        }),
        find_run_fits(events.push(FindEvent::Other)),
        find_run(events.push(FindEvent::Other)) == FindPhase::Waiting,
        find_run_fits(events.push(FindEvent::Ended)),
        find_run(events.push(FindEvent::Ended)) == FindPhase::NotFound,
{
    lemma_find_push(events, FindEvent::Other);
    lemma_find_push(events, FindEvent::Ended);
    let added = events.push(FindEvent::DeviceAdded { address });
    lemma_find_push(events, FindEvent::DeviceAdded { address });
    lemma_find_push(added, FindEvent::LookedUp(false));
    lemma_find_push(added, FindEvent::LookedUp(true));
    let held = added.push(FindEvent::LookedUp(true));
    lemma_find_push(held, FindEvent::Tried(true));
    lemma_find_push(held, FindEvent::Tried(false));
    assert(added.push(FindEvent::LookedUp(false)) =~= events + seq![
        FindEvent::DeviceAdded { address },
        FindEvent::LookedUp(false),
    ]);
    assert(held.push(FindEvent::Tried(true)) =~= events + seq![
        FindEvent::DeviceAdded { address },
        FindEvent::LookedUp(true),
        FindEvent::Tried(true),
    ]);
    assert(held.push(FindEvent::Tried(false)) =~= events + seq![
        FindEvent::DeviceAdded { address },
        FindEvent::LookedUp(true),
        FindEvent::Tried(false),
    ]);
}

/// A search whose steps all succeed takes them in this order and then waits for
/// devices; one of whose steps fails ends with that step.
pub proof fn law_find_takes_its_steps(n: nat)
    requires
        n <= 6,
    ensures
        ({
            let done = Seq::new(n, |i: int| FindEvent::Prepared(true));
            let steps = seq![
                FindStep::OpenSession,
                FindStep::SelectAdapter,
                FindStep::ReadAlias,
                FindStep::PowerOn,
                FindStep::SetFilter,
                FindStep::StartDiscovery,
            ];
            let failed = done.push(FindEvent::Prepared(false));
            &&& find_run_fits(done)
            &&& n == 6 ==> find_run(done) == FindPhase::Waiting
            &&& n < 6 ==> find_run(done) == FindPhase::Preparing(steps[n as int])
                && find_run_fits(failed) && find_run(failed) == FindPhase::Unprepared(
                steps[n as int],
            )
        }),
    decreases n,
{
    let done = Seq::new(n, |i: int| FindEvent::Prepared(true));
    if n > 0 {
        let before = Seq::new((n - 1) as nat, |i: int| FindEvent::Prepared(true));
        law_find_takes_its_steps((n - 1) as nat);
        lemma_find_push(before, FindEvent::Prepared(true));
        assert(before.push(FindEvent::Prepared(true)) =~= done);
    }
    lemma_find_push(done, FindEvent::Prepared(false));
}

/// What a listener serves is what a central looks for: of the service that is
/// advertised, the characteristic that can be written to with a response is the one
/// that it writes to, and the one that can tell of changes and have them confirmed is
/// the one that it reads from. The service is offered by a discoverable peripheral.
pub proof fn law_served_is_what_is_looked_for()
    ensures
        ({
            let served = service::service_plan();
            let advertised = service::advertisement_plan();
            &&& advertised.service == served.uuid
            &&& advertised.peripheral && advertised.discoverable && served.primary
            &&& 0 < advertised.min_interval_ms <= advertised.max_interval_ms
            &&& characteristic_role(served.uuid, served.rx.uuid) == CharacteristicRole::Writer
            &&& characteristic_role(served.uuid, served.tx.uuid) == CharacteristicRole::Reader
            &&& served.rx.usage matches service::CharacteristicUse::Write {
                with_response,
                without_response,
            } && with_response && without_response
            &&& served.tx.usage matches service::CharacteristicUse::Notify { notify, indicate }
                && notify && indicate
        }),
{
}

} // verus!
