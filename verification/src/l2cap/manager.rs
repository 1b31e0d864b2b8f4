//! The manager of L2CAP links.
use vstd::prelude::*;
use vstd::string::*;
use crate::l2cap::listen;
use crate::l2cap::listen::{ListenEvent, ListenPhase, ListenStage};
use crate::listeners;
use crate::listeners::{Listener, Listeners};
use crate::locator;
use crate::locator::{EndPoint, Locator};

verus! {

/// No listener is filed under the locator.
#[derive(Debug)]
pub struct ListenerNotFound {
    pub locator: String,
}

/// Makes links and listens for them. New links go to the transport through
/// `S`; the task of a listener is stopped and awaited by `H`.
pub struct LinkManagerUnicastBtL2capTls<S, H> {
    manager: S,
    listeners: Listeners<H>,
}

impl<S, H> LinkManagerUnicastBtL2capTls<S, H> {
    /// What new links go through.
    pub closed spec fn sender(self) -> S {
        self.manager
    }

    /// The listeners by the text of their locator.
    pub closed spec fn table(self) -> Map<Seq<char>, Listener<H>> {
        self.listeners.table()
    }

    /// The endpoints of the listeners, in the order in which they are told.
    pub closed spec fn told(self) -> Seq<Seq<char>> {
        listeners::endpoints_of(self.listeners.listeners())
    }

    /// Each listener is filed once, under the locator of its endpoint.
    pub closed spec fn wf(self) -> bool {
        self.listeners.wf()
    }

    /// A manager without listeners.
    pub fn new(manager: S) -> (made: Self)
        ensures
            made.wf(),
            made.sender() == manager,
            made.table() == Map::<Seq<char>, Listener<H>>::empty(),
            made.told() == Seq::<Seq<char>>::empty(),
    {
        let made = LinkManagerUnicastBtL2capTls { manager, listeners: Listeners::new() };
        assert(made.told() =~= Seq::<Seq<char>>::empty());
        made
    }

    /// Gives what new links go through.
    pub fn manager(&self) -> (manager: &S)
        ensures
            *manager == self.sender(),
    {
        &self.manager
    }

    /// Files a listener under the locator of its endpoint. One that was filed
    /// there before makes room. The endpoints told then are the earlier ones with
    /// another locator, and the new one.
    pub fn add_listener(&mut self, endpoint: EndPoint, handle: H) -> (added: (
        Locator,
        Option<Listener<H>>,
    ))
        requires
            old(self).wf(),
        ensures
            final(self).wf(),
            final(self).sender() == old(self).sender(),
            added.0@ == locator::endpoint_locator(endpoint@),
            final(self).table() == table_with(old(self).table(), Listener { endpoint, handle }),
            added.1 == table_entry(old(self).table(), endpoint@),
            final(self).told() == listeners::others(
                old(self).told(),
                locator::endpoint_locator(endpoint@),
            ).push(endpoint@),
    {
        self.listeners.insert(Listener { endpoint, handle })
    }

    /// Takes in how a phase of starting to listen went. Only a listener that was
    /// started is filed; its locator is then given.
    pub fn listen_step(&mut self, phase: ListenPhase, event: ListenEvent<H>) -> (next: (
        ListenPhase,
        Option<Locator>,
    ))
        requires
            old(self).wf(),
            listen::listen_event_fits(phase, event),
        ensures
            final(self).wf(),
            final(self).sender() == old(self).sender(),
            next.0 == listen::listen_next(phase, event),
            final(self).told() == listen::told_after(old(self).told(), event),
            match event {
                ListenEvent::Started { endpoint, handle } => {
                    &&& next.1 is Some
                    &&& next.1->0@ == locator::endpoint_locator(endpoint@)
                    &&& final(self).table() == table_with(
                        old(self).table(),
                        Listener { endpoint, handle },
                    )
                },
                ListenEvent::Prepared(_) => next.1 is None && final(self).table()
                    == old(self).table(),
            },
    {
        match event {
            ListenEvent::Started { endpoint, handle } => {
                let (locator, _replaced) = self.add_listener(endpoint, handle);
                (ListenPhase::Listening, Some(locator))
            },
            ListenEvent::Prepared(done) => match phase {
                ListenPhase::Preparing(stage) => if !done {
                    (ListenPhase::Failed(stage), None)
                } else {
                    match stage {
                        ListenStage::Plan => (ListenPhase::Preparing(ListenStage::Build), None),
                        ListenStage::Build => (ListenPhase::Preparing(ListenStage::Open), None),
                        ListenStage::Open => (ListenPhase::Starting, None),
                    }
                },
                _ => (ListenPhase::Starting, None),
            },
        }
    }

    /// Takes out the listener that is filed under the locator of an endpoint.
    pub fn del_listener(&mut self, endpoint: &EndPoint) -> (deleted: Result<
        Listener<H>,
        ListenerNotFound,
    >)
        requires
            old(self).wf(),
        ensures
            final(self).wf(),
            final(self).sender() == old(self).sender(),
            final(self).table() == table_without(old(self).table(), endpoint@),
            match table_entry(old(self).table(), endpoint@) {
                Some(listener) => deleted == Ok::<Listener<H>, ListenerNotFound>(listener),
                None => deleted matches Err(e) && e.locator@ == locator::endpoint_locator(
                    endpoint@,
                ),
            },
            final(self).told() == listeners::others(
                old(self).told(),
                locator::endpoint_locator(endpoint@),
            ),
    {
        let locator = endpoint.to_locator();
        match self.listeners.remove(locator.as_str()) {
            Some(listener) => Ok(listener),
            None => Err(ListenerNotFound { locator: locator.as_str().to_owned() }),
        }
    }

    /// The endpoints of all listeners.
    pub fn get_listeners(&self) -> (endpoints: Vec<EndPoint>)
        ensures
            endpoints@.len() == self.told().len(),
            forall|i: int|
                0 <= i < endpoints@.len() ==> (#[trigger] endpoints@[i])@ == self.told()[i],
    {
        self.listeners.endpoints()
    }

    /// The locators of all listeners.
    pub fn get_locators(&self) -> (locators: Vec<Locator>)
        ensures
            locators@.len() == self.told().len(),
            forall|i: int|
                0 <= i < locators@.len() ==> (#[trigger] locators@[i])@ == listeners::locators_of(
                    self.told(),
                )[i],
    {
        self.listeners.locators()
    }

    /// Every listener is filed under the locator of its own endpoint. What is told
    /// of are the listeners of the table, each once, and no locator is told twice.
    pub proof fn law_every_listener_is_told(self)
        requires
            self.wf(),
        ensures
            forall|key: Seq<char>| #[trigger]
                self.table().contains_key(key) ==> locator::endpoint_locator(
                    self.table()[key].endpoint@,
                ) == key && self.told().contains(self.table()[key].endpoint@),
            forall|i: int|
                0 <= i < self.told().len() ==> self.table().contains_key(
                    locator::endpoint_locator(#[trigger] self.told()[i]),
                ) && self.table()[locator::endpoint_locator(self.told()[i])].endpoint@
                    == self.told()[i],
            self.table().dom().finite() && self.table().dom().len() == self.told().len(),
            listeners::locators_of(self.told()).no_duplicates(),
    {
        let filed = self.listeners.listeners();
        self.listeners.lemma_table();
        assert forall|key: Seq<char>| #[trigger]
            self.table().contains_key(key) implies locator::endpoint_locator(
            self.table()[key].endpoint@,
        ) == key && self.told().contains(self.table()[key].endpoint@) by {
            let i = choose|i: int| 0 <= i < filed.len() && filed[i] == self.table()[key];
            assert(self.told()[i] == filed[i].endpoint@);
        }
        assert forall|i: int| 0 <= i < self.told().len() implies self.table().contains_key(
            locator::endpoint_locator(#[trigger] self.told()[i]),
        ) && self.table()[locator::endpoint_locator(self.told()[i])].endpoint@
            == self.told()[i] by {
            let keys = self.listeners.keys();
            assert(keys[i] == locator::endpoint_locator(self.told()[i]));
            assert(keys.contains(keys[i]));
            assert(keys.index_of(keys[i]) == i);
        }
    }
}

/// A table with one listener more, filed under the locator of its endpoint.
pub open spec fn table_with<H>(
    table: Map<Seq<char>, Listener<H>>,
    listener: Listener<H>,
) -> Map<Seq<char>, Listener<H>> {
    table.insert(locator::endpoint_locator(listener.endpoint@), listener)
}

/// A table without the listener at the locator of an endpoint.
pub open spec fn table_without<H>(
    table: Map<Seq<char>, Listener<H>>,
    endpoint: Seq<char>,
) -> Map<Seq<char>, Listener<H>> {
    table.remove(locator::endpoint_locator(endpoint))
}

/// The listener at the locator of an endpoint, if there is one.
pub open spec fn table_entry<H>(
    table: Map<Seq<char>, Listener<H>>,
    endpoint: Seq<char>,
) -> Option<Listener<H>> {
    let key = locator::endpoint_locator(endpoint);
    if table.contains_key(key) {
        Some(table[key])
    } else {
        None
    }
}

/// A listener that was added is the one that is taken out by an endpoint with
/// the same locator, whatever the configuration of that endpoint; where none
/// was there before, the table is then as it was. A second time there is none
/// to take out.
pub proof fn law_added_listener_is_taken_out<H>(
    table: Map<Seq<char>, Listener<H>>,
    listener: Listener<H>,
    endpoint: Seq<char>,
)
    requires
        locator::endpoint_locator(endpoint) == locator::endpoint_locator(listener.endpoint@),
    ensures
        table_entry(table_with(table, listener), endpoint) == Some(listener),
        table_entry(table, endpoint) is None ==> table_without(
            table_with(table, listener),
            endpoint,
        ) == table,
        table_entry(table_without(table_with(table, listener), endpoint), endpoint) is None,
{
    if table_entry(table, endpoint) is None {
        assert(table_without(table_with(table, listener), endpoint) =~= table);
    }
}

/// Adding or taking out a listener leaves those at other locators alone.
pub proof fn law_other_listeners_stay<H>(
    table: Map<Seq<char>, Listener<H>>,
    listener: Listener<H>,
    endpoint: Seq<char>,
)
    requires
        locator::endpoint_locator(endpoint) != locator::endpoint_locator(listener.endpoint@),
    ensures
        table_entry(table_with(table, listener), endpoint) == table_entry(table, endpoint),
        table_entry(table_without(table, listener.endpoint@), endpoint) == table_entry(
            table,
            endpoint,
        ),
{
}

} // verus!
