//! The listeners of a link manager.
use vstd::prelude::*;
use vstd::string::*;
use crate::locator;
use crate::locator::{EndPoint, Locator};
use crate::text;

verus! {

/// A listener: where it listens, and what its task is stopped and awaited by.
pub struct Listener<H> {
    pub endpoint: EndPoint,
    pub handle: H,
}

/// What listeners tell of: their endpoints.
pub open spec fn endpoints_of<H>(listeners: Seq<Listener<H>>) -> Seq<Seq<char>> {
    listeners.map_values(|listener: Listener<H>| listener.endpoint@)
}

/// The locators of endpoints.
pub open spec fn locators_of(endpoints: Seq<Seq<char>>) -> Seq<Seq<char>> {
    endpoints.map_values(|endpoint: Seq<char>| locator::endpoint_locator(endpoint))
}

/// The endpoints whose locator is another one.
pub open spec fn others(endpoints: Seq<Seq<char>>, locator: Seq<char>) -> Seq<Seq<char>> {
    endpoints.filter(|endpoint: Seq<char>| locator::endpoint_locator(endpoint) != locator)
}

/// Where one endpoint has the locator, the others are those before and behind it.
proof fn lemma_others_without(endpoints: Seq<Seq<char>>, locator: Seq<char>, n: int)
    requires
        0 <= n < endpoints.len(),
        forall|i: int|
            0 <= i < endpoints.len() ==> (locator::endpoint_locator(#[trigger] endpoints[i])
                == locator <==> i == n),
    ensures
        others(endpoints, locator) == endpoints.remove(n),
{
    let keep = |endpoint: Seq<char>| locator::endpoint_locator(endpoint) != locator;
    let front = endpoints.take(n);
    let back = endpoints.skip(n + 1);
    let one = seq![endpoints[n]];
    assert(endpoints =~= front + (one + back));
    Seq::filter_distributes_over_add(front, one + back, keep);
    Seq::filter_distributes_over_add(one, back, keep);
    lemma_others_all(front, locator);
    lemma_others_all(back, locator);
    assert(one.filter(keep) =~= Seq::<Seq<char>>::empty()) by {
        reveal(Seq::filter);
        assert(one.drop_last() =~= Seq::<Seq<char>>::empty());
        assert(one.drop_last().filter(keep).len() == 0);
    }
    assert(endpoints.remove(n) =~= front + back);
    assert(others(endpoints, locator) =~= front + back);
}

/// Where no endpoint has the locator, the others are all of them.
proof fn lemma_others_all(endpoints: Seq<Seq<char>>, locator: Seq<char>)
    requires
        forall|i: int|
            0 <= i < endpoints.len() ==> locator::endpoint_locator(#[trigger] endpoints[i])
                != locator,
    ensures
        others(endpoints, locator) == endpoints,
    decreases endpoints.len(),
{
    reveal(Seq::filter);
    if endpoints.len() > 0 {
        let front = endpoints.drop_last();
        assert forall|i: int| 0 <= i < front.len() implies locator::endpoint_locator(
            #[trigger] front[i],
        ) != locator by {
            assert(front[i] == endpoints[i]);
        }
        lemma_others_all(front, locator);
        assert(endpoints.last() == endpoints[endpoints.len() - 1]);
        assert(endpoints =~= front.push(endpoints.last()));
    } else {
        assert(others(endpoints, locator) =~= endpoints);
    }
}

/// Listeners, each filed under the locator of its endpoint.
pub struct Listeners<H> {
    keys: Vec<String>,
    listeners: Vec<Listener<H>>,
}

impl<H> Listeners<H> {
    /// The texts that listeners are filed under.
    pub closed spec fn keys(self) -> Seq<Seq<char>> {
        Seq::new(self.keys@.len(), |i: int| self.keys@[i]@)
    }

    /// The listeners, in the order of their keys.
    pub closed spec fn listeners(self) -> Seq<Listener<H>> {
        self.listeners@
    }

    /// Each listener is filed under the locator of its endpoint, and none of
    /// them occurs twice.
    pub open spec fn wf(self) -> bool {
        &&& self.keys().no_duplicates()
        &&& self.keys() == locators_of(endpoints_of(self.listeners()))
    }

    /// The listeners by their keys.
    pub open spec fn table(self) -> Map<Seq<char>, Listener<H>> {
        Map::new(
            |key: Seq<char>| self.keys().contains(key),
            |key: Seq<char>| self.listeners()[self.keys().index_of(key)],
        )
    }

    /// No listeners.
    pub fn new() -> (listeners: Self)
        ensures
            listeners.wf(),
            listeners.listeners() == Seq::<Listener<H>>::empty(),
            listeners.table() == Map::<Seq<char>, Listener<H>>::empty(),
    {
        let listeners = Listeners { keys: Vec::new(), listeners: Vec::new() };
        assert(listeners.table() =~= Map::<Seq<char>, Listener<H>>::empty());
        assert(listeners.keys() =~= locators_of(endpoints_of(listeners.listeners())));
        listeners
    }

    /// Where the listener with this key is.
    fn position(&self, key: &str) -> (position: Option<usize>)
        requires
            self.wf(),
        ensures
            position is Some <==> self.keys().contains(key@),
            position matches Some(i) ==> i < self.keys().len() && self.keys()[i as int] == key@
                && self.keys().index_of(key@) == i,
    {
        let mut i: usize = 0;
        while i < self.keys.len()
            invariant
                i <= self.keys@.len(),
                self.wf(),
                forall|j: int| 0 <= j < i ==> self.keys()[j] != key@,
            decreases self.keys@.len() - i,
        {
            if text::same_text(self.keys[i].as_str(), key) {
                assert(self.keys()[i as int] == key@);
                return Some(i);
            }
            i = i + 1;
        }
        None
    }

    /// Files a listener under the locator of its endpoint. One that was filed
    /// there before makes room.
    pub fn insert(&mut self, listener: Listener<H>) -> (filed: (Locator, Option<Listener<H>>))
        requires
            old(self).wf(),
        ensures
            final(self).wf(),
            filed.0@ == locator::endpoint_locator(listener.endpoint@),
            final(self).table() == old(self).table().insert(filed.0@, listener),
            filed.1 is Some <==> old(self).table().contains_key(filed.0@),
            filed.1 is Some ==> filed.1->0 == old(self).table()[filed.0@],
            endpoints_of(final(self).listeners()) == others(
                endpoints_of(old(self).listeners()),
                filed.0@,
            ).push(listener.endpoint@),
    {
        let locator = listener.endpoint.to_locator();
        let key = locator.as_str();
        let replaced = self.remove(key);
        let ghost before = *self;
        self.keys.push(key.to_owned());
        self.listeners.push(listener);
        proof {
            let n = before.keys().len() as int;
            assert(self.keys() =~= before.keys().push(key@));
            assert(self.listeners() =~= before.listeners().push(listener));
            assert(!before.table().contains_key(key@));
            assert forall|k: Seq<char>| #[trigger] self.keys().contains(k) implies k == key@
                || before.keys().contains(k) by {
                let i = self.keys().index_of(k);
                if i < n {
                    assert(before.keys()[i] == k);
                }
            }
            assert(self.keys()[n] == key@);
            assert forall|k: Seq<char>| before.keys().contains(k) implies self.keys().contains(k)
                && self.keys().index_of(k) == before.keys().index_of(k) by {
                let i = before.keys().index_of(k);
                assert(self.keys()[i] == k);
            }
            assert(self.table() =~= before.table().insert(key@, listener));
            assert(self.table() =~= old(self).table().insert(key@, listener));
            assert(endpoints_of(self.listeners()) =~= endpoints_of(before.listeners()).push(
                listener.endpoint@,
            ));
            assert(self.keys() =~= locators_of(endpoints_of(self.listeners())));
        }
        (locator, replaced)
    }

    /// Takes the listener with this key out.
    pub fn remove(&mut self, key: &str) -> (removed: Option<Listener<H>>)
        requires
            old(self).wf(),
        ensures
            final(self).wf(),
            final(self).table() == old(self).table().remove(key@),
            removed is Some <==> old(self).table().contains_key(key@),
            removed is Some ==> removed->0 == old(self).table()[key@],
            endpoints_of(final(self).listeners()) == others(
                endpoints_of(old(self).listeners()),
                key@,
            ),
    {
        let ghost before = *self;
        let ghost told = endpoints_of(self.listeners());
        proof {
            assert(self.keys().len() == told.len());
            assert forall|i: int| 0 <= i < told.len() implies locator::endpoint_locator(
                #[trigger] told[i],
            ) == self.keys()[i] by {
                assert(locators_of(told)[i] == locator::endpoint_locator(told[i]));
            }
        }
        match self.position(key) {
            None => {
                proof {
                    assert(self.table().remove(key@) =~= self.table());
                    assert forall|i: int| 0 <= i < told.len() implies locator::endpoint_locator(
                        #[trigger] told[i],
                    ) != key@ by {
                        assert(self.keys().contains(self.keys()[i]));
                    }
                    lemma_others_all(told, key@);
                }
                None
            },
            Some(i) => {
                self.keys.remove(i);
                let listener = self.listeners.remove(i);
                proof {
                    let n = i as int;
                    assert(self.keys() =~= before.keys().remove(n));
                    assert(self.listeners() =~= before.listeners().remove(n));
                    assert forall|k: Seq<char>|
                        before.keys().contains(k) && k != key@ implies self.keys().contains(k)
                        && self.listeners()[self.keys().index_of(k)]
                        == before.listeners()[before.keys().index_of(k)] by {
                        let j = before.keys().index_of(k);
                        let m = if j < n {
                            j
                        } else {
                            j - 1
                        };
                        assert(self.keys()[m] == k);
                    }
                    assert forall|k: Seq<char>| #[trigger] self.keys().contains(k) implies k != key@
                        && before.keys().contains(k) by {
                        let j = self.keys().index_of(k);
                        let m = if j < n {
                            j
                        } else {
                            j + 1
                        };
                        assert(before.keys()[m] == k);
                        assert(before.keys()[n] == key@);
                    }
                    assert(self.table() =~= before.table().remove(key@));
                    lemma_others_without(told, key@, n);
                    assert(endpoints_of(self.listeners()) =~= told.remove(n));
                    assert(self.keys() =~= locators_of(endpoints_of(self.listeners())));
                }
                Some(listener)
            },
        }
    }

    /// The table holds each of the listeners under the locator of its endpoint,
    /// and no two of these are the same.
    pub proof fn lemma_table(self)
        requires
            self.wf(),
        ensures
            forall|i: int|
                0 <= i < self.listeners().len() ==> self.table().contains_value(
                    #[trigger] self.listeners()[i],
                ),
            forall|key: Seq<char>| #[trigger]
                self.table().contains_key(key) ==> self.listeners().contains(self.table()[key])
                    && locator::endpoint_locator(self.table()[key].endpoint@) == key,
            self.table().dom().finite() && self.table().dom().len() == self.listeners().len(),
            locators_of(endpoints_of(self.listeners())).no_duplicates(),
    {
        assert(self.keys().len() == self.listeners().len());
        assert forall|key: Seq<char>| #[trigger]
            self.table().contains_key(key) implies self.listeners().contains(self.table()[key])
            && locator::endpoint_locator(self.table()[key].endpoint@) == key by {
            let i = self.keys().index_of(key);
            let told = endpoints_of(self.listeners());
            assert(self.keys()[i] == key);
            assert(locators_of(told)[i] == locator::endpoint_locator(told[i]));
            assert(told[i] == self.listeners()[i].endpoint@);
        }
        let keys = self.keys();
        assert forall|i: int| 0 <= i < self.listeners().len() implies self.table().contains_value(
            #[trigger] self.listeners()[i],
        ) by {
            assert(keys.contains(keys[i]));
            assert(keys.index_of(keys[i]) == i);
            assert(self.table().contains_key(keys[i]));
        }
        keys.unique_seq_to_set();
        assert(self.table().dom() =~= keys.to_set());
    }

    /// The endpoints of all listeners.
    pub fn endpoints(&self) -> (endpoints: Vec<EndPoint>)
        ensures
            endpoints@.len() == self.listeners().len(),
            forall|i: int|
                0 <= i < endpoints@.len() ==> (#[trigger] endpoints@[i])@ == endpoints_of(
                    self.listeners(),
                )[i],
    {
        let mut endpoints: Vec<EndPoint> = Vec::new();
        let mut i: usize = 0;
        while i < self.listeners.len()
            invariant
                i <= self.listeners@.len(),
                endpoints@.len() == i,
                forall|j: int|
                    0 <= j < i ==> (#[trigger] endpoints@[j])@ == self.listeners@[j].endpoint@,
            decreases self.listeners@.len() - i,
        {
            endpoints.push(self.listeners[i].endpoint.duplicate());
            i = i + 1;
        }
        endpoints
    }

    /// The locators of all listeners.
    pub fn locators(&self) -> (locators: Vec<Locator>)
        ensures
            locators@.len() == self.listeners().len(),
            forall|i: int|
                0 <= i < locators@.len() ==> (#[trigger] locators@[i])@ == locators_of(
                    endpoints_of(self.listeners()),
                )[i],
    {
        let mut locators: Vec<Locator> = Vec::new();
        let mut i: usize = 0;
        while i < self.listeners.len()
            invariant
                i <= self.listeners@.len(),
                locators@.len() == i,
                forall|j: int|
                    0 <= j < i ==> (#[trigger] locators@[j])@ == locator::endpoint_locator(
                        self.listeners@[j].endpoint@,
                    ),
            decreases self.listeners@.len() - i,
        {
            locators.push(self.listeners[i].endpoint.to_locator());
            i = i + 1;
        }
        locators
    }
}

/// The other endpoints are exactly those with another locator.
pub proof fn law_others_have_another_locator(
    endpoints: Seq<Seq<char>>,
    locator: Seq<char>,
    endpoint: Seq<char>,
)
    ensures
        others(endpoints, locator).contains(endpoint) <==> endpoints.contains(endpoint)
            && locator::endpoint_locator(endpoint) != locator,
        others(endpoints, locator).len() <= endpoints.len(),
{
    let keep = |e: Seq<char>| locator::endpoint_locator(e) != locator;
    let kept = others(endpoints, locator);
    endpoints.lemma_filter_len(keep);
    if kept.contains(endpoint) {
        let i = choose|i: int| 0 <= i < kept.len() && kept[i] == endpoint;
        assert(keep(kept[i]));
        endpoints.lemma_filter_contains_rev(keep, endpoint);
    }
    if endpoints.contains(endpoint) && keep(endpoint) {
        let i = choose|i: int| 0 <= i < endpoints.len() && endpoints[i] == endpoint;
        assert(kept.contains(endpoints[i]));
    }
}

} // verus!
