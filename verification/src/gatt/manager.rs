//! The manager of GATT links.
use vstd::prelude::*;
use vstd::string::*;
use crate::gatt::listen;
use crate::gatt::listen::{ListenEvent, ListenPhase};
use crate::gatt::service;
use crate::listeners;
use crate::listeners::{Listener, Listeners};
use crate::locator;
use crate::locator::{EndPoint, Locator};
use crate::text;

verus! {

/// No listener is filed under the name.
#[derive(Debug)]
pub struct ListenerNotFound {
    pub name: String,
}

/// Makes links and listens for them. New links go to the transport through
/// `S`; the task of a listener is stopped and awaited by `H`.
pub struct LinkManagerUnicastBtGatt<S, H> {
    manager: S,
    listeners: Listeners<H>,
}

impl<S, H> LinkManagerUnicastBtGatt<S, H> {
    /// What new links go through.
    pub closed spec fn sender(self) -> S {
        self.manager
    }

    /// The listeners by the text of their locator.
    pub closed spec fn table(self) -> Map<Seq<char>, Listener<H>> {
        self.listeners.table()
    }

    /// The endpoints of the listeners, in the order in which they are told.
    pub closed spec fn told(self) -> Seq<Seq<char>> {
        listeners::endpoints_of(self.listeners.listeners())
    }

    /// Each listener is filed once, under the locator of its endpoint.
    pub closed spec fn wf(self) -> bool {
        self.listeners.wf()
    }

    /// A manager without listeners.
    pub fn new(manager: S) -> (made: Self)
        ensures
            made.wf(),
            made.sender() == manager,
            made.table() == Map::<Seq<char>, Listener<H>>::empty(),
            made.told() == Seq::<Seq<char>>::empty(),
    {
        let made = LinkManagerUnicastBtGatt { manager, listeners: Listeners::new() };
        assert(made.told() =~= Seq::<Seq<char>>::empty());
        made
    }

    /// Gives what new links go through.
    pub fn manager(&self) -> (manager: &S)
        ensures
            *manager == self.sender(),
    {
        &self.manager
    }

    /// Files a listener under the locator of its endpoint. One that was filed
    /// there before makes room. The endpoints told then are the earlier ones with
    /// another locator, and the new one.
    pub fn add_listener(&mut self, endpoint: EndPoint, handle: H) -> (added: (
        Locator,
        Option<Listener<H>>,
    ))
        requires
            old(self).wf(),
        ensures
            final(self).wf(),
            final(self).sender() == old(self).sender(),
            added.0@ == locator::endpoint_locator(endpoint@),
            final(self).table() == old(self).table().insert(
                locator::endpoint_locator(endpoint@),
                Listener { endpoint, handle },
            ),
            added.1 is Some <==> old(self).table().contains_key(
                locator::endpoint_locator(endpoint@),
            ),
            added.1 is Some ==> (added.1->0) == old(self).table()[locator::endpoint_locator(
                endpoint@,
            )],
            final(self).told() == listeners::others(
                old(self).told(),
                locator::endpoint_locator(endpoint@),
            ).push(endpoint@),
            final(self).table() == table_with(old(self).table(), Listener { endpoint, handle }),
    {
        self.listeners.insert(Listener { endpoint, handle })
    }

    /// Takes in how a phase of starting to listen went. Only a listener that was
    /// started is filed; its locator is then given.
    pub fn listen_step(&mut self, phase: ListenPhase, event: ListenEvent<H>) -> (next: (
        ListenPhase,
        Option<Locator>,
    ))
        requires
            old(self).wf(),
            listen::listen_event_fits(phase, event),
        ensures
            final(self).wf(),
            final(self).sender() == old(self).sender(),
            next.0 == listen::listen_next(phase, event),
            final(self).told() == listen::told_after(old(self).told(), event),
            match event {
                ListenEvent::Started { endpoint, handle } => {
                    &&& final(self).table() == table_with(
                        old(self).table(),
                        Listener { endpoint, handle },
                    )
                    &&& next.1 is Some
                    &&& next.1->0@ == locator::endpoint_locator(endpoint@)
                    &&& final(self).table() == old(self).table().insert(
                        locator::endpoint_locator(endpoint@),
                        Listener { endpoint, handle },
                    )
                },
                ListenEvent::Answered(_) => next.1 is None && final(self).table()
                    == old(self).table(),
            },
    {
        match event {
            ListenEvent::Started { endpoint, handle } => {
                let (locator, _replaced) = self.add_listener(endpoint, handle);
                (ListenPhase::Listening, Some(locator))
            },
            ListenEvent::Answered(answer) => match phase {
                ListenPhase::SettingUp(step) => match service::next_setup_step(step, answer) {
                    Some(next) => (ListenPhase::SettingUp(next), None),
                    None => (ListenPhase::Failed(step), None),
                },
                _ => (phase, None),
            },
        }
    }

    /// Takes out the listener that is filed under the address of an endpoint.
    pub fn del_listener(&mut self, endpoint: &EndPoint) -> (deleted: Result<
        Listener<H>,
        ListenerNotFound,
    >)
        requires
            old(self).wf(),
        ensures
            final(self).wf(),
            final(self).sender() == old(self).sender(),
            final(self).table() == old(self).table().remove(
                locator::endpoint_address(endpoint@),
            ),
            deleted is Ok <==> old(self).table().contains_key(
                locator::endpoint_address(endpoint@),
            ),
            deleted is Ok ==> deleted->Ok_0 == old(self).table()[locator::endpoint_address(
                endpoint@,
            )],
            deleted is Err ==> deleted->Err_0.name@ == locator::endpoint_address(endpoint@),
            final(self).table() == table_without(old(self).table(), endpoint@),
            match table_entry(old(self).table(), endpoint@) {
                Some(listener) => deleted == Ok::<Listener<H>, ListenerNotFound>(listener),
                None => deleted is Err,
            },
            final(self).told() == listeners::others(
                old(self).told(),
                locator::endpoint_address(endpoint@),
            ),
    {
        let name = endpoint.address();
        match self.listeners.remove(name) {
            Some(listener) => Ok(listener),
            None => Err(ListenerNotFound { name: name.to_owned() }),
        }
    }

    /// The endpoints of all listeners.
    pub fn get_listeners(&self) -> (endpoints: Vec<EndPoint>)
        ensures
            endpoints@.len() == self.told().len(),
            forall|i: int|
                0 <= i < endpoints@.len() ==> (#[trigger] endpoints@[i])@ == self.told()[i],
    {
        self.listeners.endpoints()
    }

    /// The locators of all listeners.
    pub fn get_locators(&self) -> (locators: Vec<Locator>)
        ensures
            locators@.len() == self.told().len(),
            forall|i: int|
                0 <= i < locators@.len() ==> (#[trigger] locators@[i])@ == listeners::locators_of(
                    self.told(),
                )[i],
    {
        self.listeners.locators()
    }

    /// Every listener is filed under the locator of its own endpoint. What is told
    /// of are the listeners of the table, each once, and no locator is told twice.
    pub proof fn law_every_listener_is_told(self)
        requires
            self.wf(),
        ensures
            forall|key: Seq<char>| #[trigger]
                self.table().contains_key(key) ==> locator::endpoint_locator(
                    self.table()[key].endpoint@,
                ) == key && self.told().contains(self.table()[key].endpoint@),
            forall|i: int|
                0 <= i < self.told().len() ==> self.table().contains_key(
                    locator::endpoint_locator(#[trigger] self.told()[i]),
                ) && self.table()[locator::endpoint_locator(self.told()[i])].endpoint@
                    == self.told()[i],
            self.table().dom().finite() && self.table().dom().len() == self.told().len(),
            listeners::locators_of(self.told()).no_duplicates(),
    {
        let filed = self.listeners.listeners();
        self.listeners.lemma_table();
        assert forall|key: Seq<char>| #[trigger]
            self.table().contains_key(key) implies locator::endpoint_locator(
            self.table()[key].endpoint@,
        ) == key && self.told().contains(self.table()[key].endpoint@) by {
            let i = choose|i: int| 0 <= i < filed.len() && filed[i] == self.table()[key];
            assert(self.told()[i] == filed[i].endpoint@);
        }
        assert forall|i: int| 0 <= i < self.told().len() implies self.table().contains_key(
            locator::endpoint_locator(#[trigger] self.told()[i]),
        ) && self.table()[locator::endpoint_locator(self.told()[i])].endpoint@
            == self.told()[i] by {
            let keys = self.listeners.keys();
            assert(keys[i] == locator::endpoint_locator(self.told()[i]));
            assert(keys.contains(keys[i]));
            assert(keys.index_of(keys[i]) == i);
        }
    }
}

/// The address of an endpoint is never the text of its locator, which is
/// longer. So a listener is not found by the endpoint that it was filed with.
pub proof fn law_address_is_not_the_locator(endpoint: Seq<char>)
    requires
        locator::is_endpoint_text(endpoint),
    ensures
        locator::endpoint_address(endpoint) != locator::endpoint_locator(endpoint),
{
    text::lemma_first_index(endpoint, '/');
    text::lemma_first_index(endpoint, '?');
    text::lemma_first_index(endpoint, '#');
    assert(locator::endpoint_address(endpoint).len() < locator::endpoint_locator(endpoint).len());
}

/// A table with one listener more, filed under the locator of its endpoint.
pub open spec fn table_with<H>(
    table: Map<Seq<char>, Listener<H>>,
    listener: Listener<H>,
) -> Map<Seq<char>, Listener<H>> {
    table.insert(locator::endpoint_locator(listener.endpoint@), listener)
}

/// A table without the listener that is filed under the address of an endpoint.
pub open spec fn table_without<H>(
    table: Map<Seq<char>, Listener<H>>,
    endpoint: Seq<char>,
) -> Map<Seq<char>, Listener<H>> {
    table.remove(locator::endpoint_address(endpoint))
}

/// The listener that is filed under the address of an endpoint, if there is one.
pub open spec fn table_entry<H>(
    table: Map<Seq<char>, Listener<H>>,
    endpoint: Seq<char>,
) -> Option<Listener<H>> {
    let key = locator::endpoint_address(endpoint);
    if table.contains_key(key) {
        Some(table[key])
    } else {
        None
    }
}

/// A listener is taken out by an endpoint whose address is the locator of the
/// listener, and by no other. So the endpoint that it was added with does not find it,
/// and taking that one out leaves it where it is. Listeners at other locators are left
/// alone.
pub proof fn law_listener_is_taken_out_by_its_locator<H>(
    table: Map<Seq<char>, Listener<H>>,
    listener: Listener<H>,
    endpoint: Seq<char>,
)
    requires
        locator::is_endpoint_text(listener.endpoint@),
    ensures
        ({
            let added = table_with(table, listener);
            let key = locator::endpoint_locator(listener.endpoint@);
            &&& added.contains_key(key) && added[key] == listener
            &&& locator::endpoint_address(endpoint) == key ==> table_entry(added, endpoint) == Some(
                listener,
            ) && !table_without(added, endpoint).contains_key(key)
            &&& locator::endpoint_address(endpoint) != key ==> table_entry(added, endpoint)
                == table_entry(table, endpoint) && table_without(added, endpoint).contains_key(key)
                && table_without(added, endpoint)[key] == listener
            &&& table_entry(added, listener.endpoint@) == table_entry(table, listener.endpoint@)
            &&& table_without(added, listener.endpoint@).contains_key(key)
        }),
{
    law_address_is_not_the_locator(listener.endpoint@);
}

} // verus!
