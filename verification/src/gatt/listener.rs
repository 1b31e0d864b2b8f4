//! The peripheral side: waiting for centrals that use both characteristics.
use std::collections::HashMap;
use vstd::prelude::*;

verus! {

broadcast use vstd::std_specs::hash::group_hash_axioms;

/// What the listener learns of. Centrals are told apart by their 48-bit device
/// address.
pub enum ListenerEvent<R, W> {
    /// A device has left.
    DeviceRemoved { address: u64 },
    /// A central has begun to write; its bytes come from `reader`.
    WriteAccepted { address: u64, reader: R },
    /// A central has subscribed; bytes reach it through `writer`.
    Subscribed { address: u64, writer: W },
    /// Any other event, or an event stream that has ended.
    Other,
    /// The listener is to stop.
    Cancelled,
}

/// What the listener is to do next.
pub enum ListenerAction<R, W> {
    /// Wait for the next event.
    Wait,
    /// Hand a link with this central to the transport manager.
    Accept { address: u64, reader: R, writer: W },
    /// Stop listening.
    Stop,
}

impl<R, W> ListenerAction<R, W> {
    /// Whether to advertise again once the action was taken: an accepted
    /// connection ends the advertisement.
    pub fn advertises_again(&self) -> (again: bool)
        ensures
            again <==> *self is Accept,
    {
        match self {
            ListenerAction::Accept { .. } => true,
            _ => false,
        }
    }
}

/// Whose bytes can be read and who can be written to, before both hold of the
/// same central.
pub struct PairingTable<R, W> {
    readers: HashMap<u64, R>,
    writers: HashMap<u64, W>,
}

/// The readers that wait once an event has been taken in.
pub open spec fn readers_after<R, W>(readers: Map<u64, R>, event: ListenerEvent<R, W>) -> Map<
    u64,
    R,
> {
    match event {
        ListenerEvent::DeviceRemoved { address } => readers.remove(address),
        ListenerEvent::WriteAccepted { address, reader } => readers.insert(address, reader),
        _ => readers,
    }
}

/// The writers that wait once an event has been taken in.
pub open spec fn writers_after<R, W>(writers: Map<u64, W>, event: ListenerEvent<R, W>) -> Map<
    u64,
    W,
> {
    match event {
        ListenerEvent::DeviceRemoved { address } => writers.remove(address),
        ListenerEvent::Subscribed { address, writer } => writers.insert(address, writer),
        _ => writers,
    }
}

/// The centrals that can be both read from and written to.
pub open spec fn paired<R, W>(readers: Map<u64, R>, writers: Map<u64, W>) -> Set<u64> {
    readers.dom().intersect(writers.dom())
}

/// What is to be done once an event has been taken in, given who waited before.
pub open spec fn action_after<R, W>(
    readers: Map<u64, R>,
    writers: Map<u64, W>,
    event: ListenerEvent<R, W>,
) -> ListenerAction<R, W> {
    match event {
        ListenerEvent::Cancelled => ListenerAction::Stop,
        ListenerEvent::WriteAccepted { address, reader } => if writers.contains_key(address) {
            ListenerAction::Accept { address, reader, writer: writers[address] }
        } else {
            ListenerAction::Wait
        },
        ListenerEvent::Subscribed { address, writer } => if readers.contains_key(address) {
            ListenerAction::Accept { address, reader: readers[address], writer }
        } else {
            ListenerAction::Wait
        },
        _ => ListenerAction::Wait,
    }
}

impl<R, W> PairingTable<R, W> {
    /// The readers that wait for their writer.
    pub closed spec fn readers(self) -> Map<u64, R> {
        self.readers@
    }

    /// The writers that wait for their reader.
    pub closed spec fn writers(self) -> Map<u64, W> {
        self.writers@
    }

    /// Between two events no central waits on both sides.
    pub open spec fn wf(self) -> bool {
        paired(self.readers(), self.writers()) == Set::<u64>::empty()
    }

    /// A table in which nobody waits.
    pub fn new() -> (table: Self)
        ensures
            table.wf(),
            table.readers() == Map::<u64, R>::empty(),
            table.writers() == Map::<u64, W>::empty(),
    {
        let table = PairingTable { readers: HashMap::new(), writers: HashMap::new() };
        assert(paired(table.readers@, table.writers@) =~= Set::<u64>::empty());
        table
    }

    /// Takes an event in, and takes out the central that it completes.
    pub fn step(&mut self, event: ListenerEvent<R, W>) -> (action: ListenerAction<R, W>)
        requires
            old(self).wf(),
        ensures
            final(self).wf(),
            event is Cancelled <==> action is Stop,
            event is Cancelled ==> final(self).readers() == old(self).readers()
                && final(self).writers() == old(self).writers(),
            event !is Cancelled ==> ({
                let readers = readers_after(old(self).readers(), event);
                let writers = writers_after(old(self).writers(), event);
                let complete = paired(readers, writers);
                &&& final(self).readers() == readers.remove_keys(complete)
                &&& final(self).writers() == writers.remove_keys(complete)
                &&& action is Accept <==> complete != Set::<u64>::empty()
                &&& action matches ListenerAction::Accept { address, reader, writer } ==> {
                    &&& complete == set![address]
                    &&& reader == readers[address]
                    &&& writer == writers[address]
                }
            }),
            action == action_after(old(self).readers(), old(self).writers(), event),
    {
        let ghost readers = readers_after(old(self).readers(), event);
        let ghost writers = writers_after(old(self).writers(), event);
        proof {
            assert forall|a: u64| self.readers@.contains_key(a) implies !self.writers@.contains_key(
                a,
            ) by {
                if self.writers@.contains_key(a) {
                    assert(paired(self.readers@, self.writers@).contains(a));
                }
            }
        }
        let address: u64 = match event {
            ListenerEvent::Cancelled => {
                return ListenerAction::Stop;
            },
            ListenerEvent::Other => {
                proof {
                    lemma_nothing_complete(readers, writers);
                }
                return ListenerAction::Wait;
            },
            ListenerEvent::DeviceRemoved { address } => {
                self.readers.remove(&address);
                self.writers.remove(&address);
                proof {
                    lemma_nothing_complete(readers, writers);
                }
                return ListenerAction::Wait;
            },
            ListenerEvent::WriteAccepted { address, reader } => {
                self.readers.insert(address, reader);
                address
            },
            ListenerEvent::Subscribed { address, writer } => {
                self.writers.insert(address, writer);
                address
            },
        };
        assert(self.readers@ == readers);
        assert(self.writers@ == writers);
        if self.readers.contains_key(&address) && self.writers.contains_key(&address) {
            let reader = self.readers.remove(&address).unwrap();
            let writer = self.writers.remove(&address).unwrap();
            proof {
                assert(paired(readers, writers) =~= set![address]);
                assert(paired(readers, writers).contains(address));
                assert(readers.remove_keys(set![address]) =~= readers.remove(address));
                assert(writers.remove_keys(set![address]) =~= writers.remove(address));
                assert(paired(self.readers@, self.writers@) =~= Set::<u64>::empty());
            }
            ListenerAction::Accept { address, reader, writer }
        } else {
            proof {
                lemma_nothing_complete(readers, writers);
            }
            ListenerAction::Wait
        }
    }
}

/// What waits of one central: its reader and its writer.
pub open spec fn waiting<R, W>(
    readers: Map<u64, R>,
    writers: Map<u64, W>,
    address: u64,
) -> (Option<R>, Option<W>) {
    (
        if readers.contains_key(address) {
            Some(readers[address])
        } else {
            None
        },
        if writers.contains_key(address) {
            Some(writers[address])
        } else {
            None
        },
    )
}

/// What waits of the central at `address` once an event has been taken in,
/// given what waited of it before: a removal clears it, a new reader or writer
/// replaces the one of its kind, and as soon as both are there neither waits.
pub open spec fn waiting_after<R, W>(
    before: (Option<R>, Option<W>),
    event: ListenerEvent<R, W>,
    address: u64,
) -> (Option<R>, Option<W>) {
    let taken_in = match event {
        ListenerEvent::DeviceRemoved { address: a } if a == address => (None, None),
        ListenerEvent::WriteAccepted { address: a, reader } if a == address => (
            Some(reader),
            before.1,
        ),
        ListenerEvent::Subscribed { address: a, writer } if a == address => (
            before.0,
            Some(writer),
        ),
        _ => before,
    };
    if taken_in.0 is Some && taken_in.1 is Some {
        (None, None)
    } else {
        taken_in
    }
}

/// Centrals do not get in each other's way: what an event leaves waiting of a
/// central depends on that event and on what waited of this central alone.
pub proof fn law_centrals_are_independent<R, W>(
    readers: Map<u64, R>,
    writers: Map<u64, W>,
    event: ListenerEvent<R, W>,
    address: u64,
)
    requires
        paired(readers, writers) == Set::<u64>::empty(),
    ensures
        ({
            let readers_in = readers_after(readers, event);
            let writers_in = writers_after(writers, event);
            let complete = paired(readers_in, writers_in);
            waiting(readers_in.remove_keys(complete), writers_in.remove_keys(complete), address)
                == waiting_after(waiting(readers, writers, address), event, address)
        }),
{
    if readers.contains_key(address) && writers.contains_key(address) {
        assert(paired(readers, writers).contains(address));
    }
}

/// A central that subscribes and begins to write, in whichever order, is
/// accepted with the reader and the writer that it brought.
pub proof fn law_both_halves_make_a_link<R, W>(
    readers: Map<u64, R>,
    writers: Map<u64, W>,
    address: u64,
    reader: R,
    writer: W,
)
    requires
        paired(readers, writers) == Set::<u64>::empty(),
    ensures
        writers.contains_key(address) ==> ({
            let event = ListenerEvent::<R, W>::WriteAccepted { address, reader };
            &&& paired(readers_after(readers, event), writers_after(writers, event))
                == set![address]
            &&& readers_after(readers, event)[address] == reader
            &&& writers_after(writers, event)[address] == writers[address]
        }),
        readers.contains_key(address) ==> ({
            let event = ListenerEvent::<R, W>::Subscribed { address, writer };
            &&& paired(readers_after(readers, event), writers_after(writers, event))
                == set![address]
            &&& readers_after(readers, event)[address] == readers[address]
            &&& writers_after(writers, event)[address] == writer
        }),
{
    assert forall|a: u64| readers.contains_key(a) implies !writers.contains_key(a) by {
        if writers.contains_key(a) {
            assert(paired(readers, writers).contains(a));
        }
    }
    if writers.contains_key(address) {
        let event = ListenerEvent::<R, W>::WriteAccepted { address, reader };
        assert(paired(readers_after(readers, event), writers_after(writers, event)) =~= set![
            address,
        ]);
    }
    if readers.contains_key(address) {
        let event = ListenerEvent::<R, W>::Subscribed { address, writer };
        assert(paired(readers_after(readers, event), writers_after(writers, event)) =~= set![
            address,
        ]);
    }
}

/// How a listener stands: who waits, how many links it has handed over, and how
/// often it has advertised.
pub struct Listened<R, W> {
    pub readers: Map<u64, R>,
    pub writers: Map<u64, W>,
    pub links: nat,
    pub advertised: nat,
}

/// How a listener stands after a run of events. The setup has advertised once; an
/// event hands over a link for each central that it completes, and is followed
/// by an advertisement where it completes any.
pub open spec fn listened<R, W>(events: Seq<ListenerEvent<R, W>>) -> Listened<R, W>
    decreases events.len(),
{
    if events.len() == 0 {
        Listened { readers: Map::empty(), writers: Map::empty(), links: 0, advertised: 1 }
    } else {
        let before = listened(events.drop_last());
        let readers = readers_after(before.readers, events.last());
        let writers = writers_after(before.writers, events.last());
        let complete = paired(readers, writers);
        Listened {
            readers: readers.remove_keys(complete),
            writers: writers.remove_keys(complete),
            links: before.links + complete.len(),
            advertised: before.advertised + if complete != Set::<u64>::empty() {
                1nat
            } else {
                0nat
            },
        }
    }
}

/// A listener advertises once at first and once more for every link, and no
/// event hands over more than one.
pub proof fn law_every_link_is_advertised_after<R, W>(events: Seq<ListenerEvent<R, W>>)
    ensures
        listened(events).advertised == 1 + listened(events).links,
        events.len() > 0 ==> listened(events).links <= listened(events.drop_last()).links + 1,
        paired(listened(events).readers, listened(events).writers) == Set::<u64>::empty(),
    decreases events.len(),
{
    if events.len() == 0 {
        assert(paired(listened(events).readers, listened(events).writers) =~= Set::empty());
    } else {
        let before = listened(events.drop_last());
        law_every_link_is_advertised_after(events.drop_last());
        let readers = readers_after(before.readers, events.last());
        let writers = writers_after(before.writers, events.last());
        let complete = paired(readers, writers);
        assert forall|a: u64|
            before.readers.contains_key(a) implies !before.writers.contains_key(a) by {
            if before.writers.contains_key(a) {
                assert(paired(before.readers, before.writers).contains(a));
            }
        }
        if complete != Set::<u64>::empty() {
            let address = match events.last() {
                ListenerEvent::WriteAccepted { address, .. } => address,
                ListenerEvent::Subscribed { address, .. } => address,
                _ => 0u64,
            };
            assert(exists|a: u64| complete.contains(a)) by {
                if forall|a: u64| !complete.contains(a) {
                    assert(complete =~= Set::<u64>::empty());
                }
            }
            assert(complete =~= set![address]);
        }
        assert(paired(listened(events).readers, listened(events).writers) =~= Set::empty());
    }
}

/// Where no central waits on both sides, taking out the complete ones changes
/// nothing.
proof fn lemma_nothing_complete<R, W>(readers: Map<u64, R>, writers: Map<u64, W>)
    requires
        forall|a: u64| readers.contains_key(a) ==> !writers.contains_key(a),
    ensures
        paired(readers, writers) == Set::<u64>::empty(),
        readers.remove_keys(paired(readers, writers)) == readers,
        writers.remove_keys(paired(readers, writers)) == writers,
{
    assert(paired(readers, writers) =~= Set::<u64>::empty());
    assert(readers.remove_keys(paired(readers, writers)) =~= readers);
    assert(writers.remove_keys(paired(readers, writers)) =~= writers);
}

/// What an event changes of who waits: a device that leaves takes both its halves
/// with it, a central that writes or subscribes waits with what it brought in
/// place of what it brought before, and nothing else is touched.
pub proof fn law_event_touches_one_central<R, W>(
    readers: Map<u64, R>,
    writers: Map<u64, W>,
    address: u64,
    other: u64,
    reader: R,
    writer: W,
)
    ensures
        ({
            let left = ListenerEvent::<R, W>::DeviceRemoved { address };
            &&& !readers_after(readers, left).contains_key(address)
            &&& !writers_after(writers, left).contains_key(address)
            &&& other != address ==> is_as_before(readers, readers_after(readers, left), other)
            &&& other != address ==> is_as_before(writers, writers_after(writers, left), other)
        }),
        ({
            let writes = ListenerEvent::<R, W>::WriteAccepted { address, reader };
            &&& readers_after(readers, writes).contains_key(address)
            &&& readers_after(readers, writes)[address] == reader
            &&& other != address ==> is_as_before(readers, readers_after(readers, writes), other)
            &&& writers_after(writers, writes) == writers
        }),
        ({
            let subscribes = ListenerEvent::<R, W>::Subscribed { address, writer };
            &&& writers_after(writers, subscribes).contains_key(address)
            &&& writers_after(writers, subscribes)[address] == writer
            &&& other != address ==> is_as_before(
                writers,
                writers_after(writers, subscribes),
                other,
            )
            &&& readers_after(readers, subscribes) == readers
        }),
        readers_after(readers, ListenerEvent::<R, W>::Other) == readers,
        writers_after(writers, ListenerEvent::<R, W>::Other) == writers,
        paired(readers, writers).contains(address) <==> readers.contains_key(address)
            && writers.contains_key(address),
{
}

/// Whether two maps say the same of a key.
pub open spec fn is_as_before<V>(before: Map<u64, V>, after: Map<u64, V>, key: u64) -> bool {
    &&& before.contains_key(key) == after.contains_key(key)
    &&& before.contains_key(key) ==> before[key] == after[key]
}

/// A central that is waited for on neither side is accepted by the second of its
/// two halves, in whichever order they come and whatever others wait, and one link
/// is handed over for both.
pub proof fn law_second_half_hands_a_link_over<R, W>(
    events: Seq<ListenerEvent<R, W>>,
    address: u64,
    reader: R,
    writer: W,
)
    requires
        !listened(events).readers.contains_key(address),
        !listened(events).writers.contains_key(address),
    ensures
        ({
            let one = ListenerEvent::<R, W>::WriteAccepted { address, reader };
            let two = ListenerEvent::<R, W>::Subscribed { address, writer };
            &&& listened(events.push(one)).links == listened(events).links
            &&& listened(events.push(two)).links == listened(events).links
            &&& listened(events.push(one).push(two)).links == listened(events).links + 1
            &&& listened(events.push(two).push(one)).links == listened(events).links + 1
            &&& listened(events.push(one).push(two)).readers == listened(events).readers
            &&& listened(events.push(one).push(two)).writers == listened(events).writers
            &&& listened(events.push(two).push(one)).readers == listened(events).readers
            &&& listened(events.push(two).push(one)).writers == listened(events).writers
        }),
{
    let one = ListenerEvent::<R, W>::WriteAccepted { address, reader };
    let two = ListenerEvent::<R, W>::Subscribed { address, writer };
    let before = listened(events);
    law_every_link_is_advertised_after(events);
    assert forall|a: u64| before.readers.contains_key(a) implies !before.writers.contains_key(
        a,
    ) by {
        if before.writers.contains_key(a) {
            assert(paired(before.readers, before.writers).contains(a));
        }
    }
    assert(events.push(one).drop_last() =~= events);
    assert(events.push(two).drop_last() =~= events);
    assert(events.push(one).push(two).drop_last() =~= events.push(one));
    assert(events.push(two).push(one).drop_last() =~= events.push(two));
    lemma_nothing_complete(before.readers.insert(address, reader), before.writers);
    lemma_nothing_complete(before.readers, before.writers.insert(address, writer));
    let readers = before.readers.insert(address, reader);
    let writers = before.writers.insert(address, writer);
    assert(paired(readers, writers) =~= set![address]);
    assert(readers.remove_keys(set![address]) =~= before.readers);
    assert(writers.remove_keys(set![address]) =~= before.writers);
}

/// An event makes a link exactly where it completes a central: one that is complete
/// once the event has been taken in is accepted, with its own reader and writer, and
/// where none is, nothing is accepted. Only being cancelled stops the listener.
pub proof fn law_complete_central_is_accepted<R, W>(
    readers: Map<u64, R>,
    writers: Map<u64, W>,
    event: ListenerEvent<R, W>,
    central: u64,
)
    requires
        forall|a: u64| readers.contains_key(a) ==> !writers.contains_key(a),
    ensures
        ({
            let readers_in = readers_after(readers, event);
            let writers_in = writers_after(writers, event);
            let action = action_after(readers, writers, event);
            &&& action is Stop <==> event is Cancelled
            &&& readers_in.contains_key(central) && writers_in.contains_key(central) ==> action
                == (ListenerAction::Accept {
                address: central,
                reader: readers_in[central],
                writer: writers_in[central],
            })
            &&& action matches ListenerAction::Accept { address, reader, writer } ==> {
                &&& readers_in.contains_key(address) && readers_in[address] == reader
                &&& writers_in.contains_key(address) && writers_in[address] == writer
            }
        }),
{
}

} // verus!
