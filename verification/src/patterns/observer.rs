use vstd::prelude::*;
use std::sync::Arc;

verus! {

/// A value that observers are told about.
pub trait Observable: Clone + Send {

}

/// Something told about observables.
pub trait Observer<O: Observable> {
    fn on_notify(&self, observable: &O);
}

/// The ids whose flag is set, in increasing order.
pub open spec fn active_ids(active: Seq<bool>) -> Seq<usize>
    decreases active.len(),
{
    if active.len() == 0 {
        seq![]
    } else {
        active_ids(active.drop_last()) + (if active.last() {
            seq![(active.len() - 1) as usize]
        } else {
            seq![]
        })
    }
}

/// The observers told are exactly the active ones, each once, in increasing order of id: an
/// id is listed if and only if its flag is set, and the list is strictly increasing.
pub proof fn lemma_active_ids_are_the_active_observers(active: Seq<bool>)
    requires
        active.len() <= usize::MAX,
    ensures
        forall|i: usize| #[trigger] active_ids(active).contains(i) <==> (i < active.len() && active[i as int]),
        forall|j: int, k: int|
            0 <= j < k < active_ids(active).len() ==> #[trigger] active_ids(active)[j]
                < #[trigger] active_ids(active)[k],
        forall|j: int| 0 <= j < active_ids(active).len() ==> #[trigger] active_ids(active)[j] < active.len(),
    decreases active.len(),
{
    if active.len() > 0 {
        let rest = active.drop_last();
        let last = (active.len() - 1) as usize;
        lemma_active_ids_are_the_active_observers(rest);
        let prev = active_ids(rest);
        let ids = active_ids(active);
        if active.last() {
            assert(ids =~= prev.push(last));
        } else {
            assert(ids =~= prev);
        }
        assert forall|i: usize| #[trigger] ids.contains(i) <==> (i < active.len() && active[i as int]) by {
            if i < rest.len() {
                assert(rest[i as int] == active[i as int]);
                assert(prev.contains(i) <==> rest[i as int]);
            }
            if i != last {
                assert(ids.contains(i) <==> prev.contains(i)) by {
                    if ids.contains(i) {
                        let j = choose|j: int| 0 <= j < ids.len() && ids[j] == i;
                        if j < prev.len() {
                            assert(prev[j] == i);
                        } else {
                            assert(ids[j] == last);
                        }
                    }
                    if prev.contains(i) {
                        let j = choose|j: int| 0 <= j < prev.len() && prev[j] == i;
                        assert(ids[j] == i);
                    }
                }
                if i < active.len() {
                    assert(i < rest.len());
                }
            } else {
                if active.last() {
                    assert(ids[ids.len() - 1] == i);
                } else {
                    if prev.contains(i) {
                        let j = choose|j: int| 0 <= j < prev.len() && prev[j] == i;
                        assert(prev[j] < rest.len());
                    }
                }
            }
        }
        assert forall|j: int, k: int| 0 <= j < k < ids.len() implies #[trigger] ids[j]
            < #[trigger] ids[k] by {
            assert(ids[j] == prev[j]);
            if k < prev.len() {
                assert(ids[k] == prev[k]);
                assert(prev[j] < prev[k]);
            } else {
                assert(ids[k] == last);
                assert(prev[j] < rest.len());
            }
        }
        assert forall|j: int| 0 <= j < ids.len() implies #[trigger] ids[j] < active.len() by {
            if j < prev.len() {
                assert(prev[j] < rest.len());
            }
        }
    }
}

/// A list of observers, each registered under an id and active until it is unregistered.
pub trait ObserverList<O: Observable, B: Observer<O> + ?Sized> {
    /// Whether each registered observer, by id, is still active.
    spec fn active(&self) -> Seq<bool>;

    /// The observer registered under each id.
    spec fn registered(&self) -> Seq<Arc<B>>;

    /// Tells each active observer, once, in order of registration, about the observable. The
    /// result lists the ids of the observers told, in the order they were told.
    fn notify_observers(&self, observable: &O) -> (told: Ghost<Seq<usize>>)
        ensures
            told@ == active_ids(self.active()),
            self.active().len() <= usize::MAX,
            forall|i: usize| #[trigger] told@.contains(i) <==> (i < self.active().len() && self.active()[i as int]),
            forall|j: int, k: int| 0 <= j < k < told@.len() ==> #[trigger] told@[j] < #[trigger] told@[k];

    /// Registers an observer, active, under the next id, which is returned.
    fn register_observer(&mut self, observer: Arc<B>) -> (id: usize)
        requires
            old(self).active().len() < usize::MAX,
        ensures
            id == old(self).active().len(),
            final(self).active() == old(self).active().push(true),
            final(self).registered() == old(self).registered().push(observer);

    /// Makes the observer with the given id inactive.
    fn unregister_observer(&mut self, observer_id_to_unregister: usize)
        requires
            observer_id_to_unregister < old(self).active().len(),
        ensures
            final(self).active() == old(self).active().update(observer_id_to_unregister as int, false),
            final(self).registered() == old(self).registered();
}

/// An observer and whether it is still active.
struct Registration<B: ?Sized> {
    active: bool,
    observer: Arc<B>,
}

/// An observer list held in a vector; the observers may be of one type, or of any type as
/// `dyn Observer`.
pub struct ConcreteObserverList<B: ?Sized> {
    observers: Vec<Registration<B>>,
}

impl<B: ?Sized> ConcreteObserverList<B> {
    /// Whether each registered observer, by id, is still active.
    pub closed spec fn active_flags(&self) -> Seq<bool> {
        self.observers@.map_values(|r: Registration<B>| r.active)
    }

    /// The observer registered under each id.
    pub closed spec fn registered_observers(&self) -> Seq<Arc<B>> {
        self.observers@.map_values(|r: Registration<B>| r.observer)
    }

    /// A list holds at most `usize::MAX` observers, and one registered observer per flag.
    pub proof fn lemma_observer_count(&self)
        ensures
            self.active_flags().len() <= usize::MAX,
            self.registered_observers().len() == self.active_flags().len(),
    {
        assert(self.observers.len() == self.observers@.len());
    }

    /// An empty list.
    pub fn new() -> (list: Self)
        ensures
            list.active_flags() == Seq::<bool>::empty(),
            list.registered_observers() == Seq::<Arc<B>>::empty(),
    {
        let list = ConcreteObserverList { observers: Vec::new() };
        assert(list.active_flags() =~= Seq::<bool>::empty());
        assert(list.registered_observers() =~= Seq::<Arc<B>>::empty());
        list
    }
}

impl<O: Observable, B: Observer<O> + ?Sized> ObserverList<O, B> for ConcreteObserverList<B> {
    open spec fn active(&self) -> Seq<bool> {
        self.active_flags()
    }

    open spec fn registered(&self) -> Seq<Arc<B>> {
        self.registered_observers()
    }

    fn notify_observers(&self, observable: &O) -> (told: Ghost<Seq<usize>>) {
        let ghost flags = self.active_flags();
        let ghost mut told: Seq<usize> = seq![];
        let mut i: usize = 0;
        while i < self.observers.len()
            invariant
                i <= self.observers.len(),
                flags == self.active_flags(),
                told == active_ids(flags.take(i as int)),
            decreases self.observers.len() - i,
        {
            assert(flags.take(i + 1).drop_last() =~= flags.take(i as int));
            if self.observers[i].active {
                self.observers[i].observer.on_notify(observable);
                proof {
                    told = told.push(i);
                }
            }
            assert(told =~= active_ids(flags.take(i + 1)));
            i += 1;
        }
        assert(flags.take(i as int) =~= flags);
        proof {
            lemma_active_ids_are_the_active_observers(flags);
        }
        Ghost(told)
    }

    fn register_observer(&mut self, observer: Arc<B>) -> (id: usize) {
        let ghost added = observer;
        self.observers.push(Registration { active: true, observer });
        assert(self.active_flags() =~= old(self).active_flags().push(true));
        assert(self.registered_observers() =~= old(self).registered_observers().push(added));
        self.observers.len() - 1
    }

    fn unregister_observer(&mut self, observer_id_to_unregister: usize) {
        let registration = self.observers.remove(observer_id_to_unregister);
        self.observers.insert(
            observer_id_to_unregister,
            Registration { active: false, observer: registration.observer },
        );
        assert(self.active_flags() =~= old(self).active_flags().update(
            observer_id_to_unregister as int,
            false,
        ));
        assert(self.registered_observers() =~= old(self).registered_observers());
    }
}

} // verus!
