use digimorse::patterns::observer::{ConcreteObserverList, Observable, Observer, ObserverList};
use std::cell::RefCell;
use std::sync::Arc;

#[derive(Clone)]
struct MyObservable {
    age: u8,
    name: String,
}
impl Observable for MyObservable {}

struct MyObserver {
    observations: RefCell<Vec<MyObservable>>,
}
impl MyObserver {
    fn new() -> MyObserver {
        MyObserver { observations: RefCell::new(Vec::new()) }
    }
    fn observations(&self) -> Vec<MyObservable> {
        self.observations.borrow().clone()
    }
}
impl Observer<MyObservable> for MyObserver {
    fn on_notify(&self, observable: &MyObservable) {
        // RefCell for interior mutability since the on_notify method does not have &mut self
        self.observations.borrow_mut().push(observable.clone());
    }
}

#[test]
fn observe_event() {
    let mut list = ConcreteObserverList::new();
    let observer = MyObserver::new();
    let arc_observer = Arc::new(observer);
    let arc_observer_cloned = arc_observer.clone();
    let observer_id = list.register_observer(arc_observer_cloned);

    list.notify_observers(&MyObservable { age: 52, name: "Matt".to_string() });
    list.notify_observers(&MyObservable { age: 21, name: "Morten".to_string() });

    let arc_observer_cloned_again = arc_observer.clone();

    let observations = arc_observer_cloned_again.observations();
    assert_eq!(observations.len(), 2);
    assert_eq!(observations.get(0).unwrap().age, 52);
    assert_eq!(observations.get(0).unwrap().name, "Matt".to_string());
    assert_eq!(observations.get(1).unwrap().age, 21);
    assert_eq!(observations.get(1).unwrap().name, "Morten".to_string());

    list.unregister_observer(observer_id);
    list.notify_observers(&MyObservable { age: 89, name: "Zeus".to_string() });

    let further_observations = arc_observer_cloned_again.observations();
    assert_eq!(further_observations.len(), 2); // no increase
}

#[test]
fn observers_get_successive_ids_and_only_active_ones_are_notified() {
    let mut list: ConcreteObserverList<dyn Observer<MyObservable>> = ConcreteObserverList::new();
    let first = Arc::new(MyObserver::new());
    let second = Arc::new(MyObserver::new());
    let first_id = list.register_observer(first.clone());
    let second_id = list.register_observer(second.clone());
    assert_eq!(first_id, 0);
    assert_eq!(second_id, 1);

    list.unregister_observer(first_id);
    list.notify_observers(&MyObservable { age: 7, name: "Seven".to_string() });
    assert_eq!(first.observations().len(), 0);
    assert_eq!(second.observations().len(), 1);
    assert_eq!(second.observations()[0].age, 7);
}
