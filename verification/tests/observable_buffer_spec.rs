use digimorse::buffer_pool::observable_buffer::{ObservableBuffer, ObservableBufferSlice, OBSERVABLE_BUFFER_SLICE_SIZE};
use digimorse::patterns::observer::Observer;
use std::cell::RefCell;
use std::sync::Arc;

struct ObservableBufferObserver {
    observations: RefCell<Vec<ObservableBufferSlice<u32>>>,
}

impl ObservableBufferObserver {
    fn observations(&self) -> Vec<ObservableBufferSlice<u32>> {
        self.observations.borrow().clone()
    }
}

impl Observer<ObservableBufferSlice<u32>> for ObservableBufferObserver {
    fn on_notify(&self, observable: &ObservableBufferSlice<u32>) {
        self.observations.borrow_mut().push(observable.clone());
    }
}

struct ObservableBufferFixture {
    observable_buffer: ObservableBuffer<u32>,
    observer: Arc<ObservableBufferObserver>,
    sample_count: u32,
}

impl ObservableBufferFixture {
    fn add_sample(&mut self) {
        self.observable_buffer.add_sample(self.sample_count);
        self.sample_count += 1;
    }

    fn add_slice_of_samples(&mut self) {
        for _ in 0..OBSERVABLE_BUFFER_SLICE_SIZE {
            self.add_sample();
        }
    }
}

fn fixture() -> ObservableBufferFixture {
    let observer = Arc::new(ObservableBufferObserver { observations: RefCell::new(vec![]) });
    let mut fixture = ObservableBufferFixture {
        observable_buffer: ObservableBuffer::new(),
        observer: observer.clone(),
        sample_count: 0,
    };
    fixture.observable_buffer.add_observer(observer);
    fixture
}

#[test]
pub fn initial_state() {
    let fixture = fixture();
    assert_eq!(fixture.observer.observations().is_empty(), true);
    assert_eq!(fixture.observable_buffer.range(), (0, 0));
}

#[test]
pub fn add_first_sample() {
    let mut fixture = fixture();
    fixture.observable_buffer.add_sample(0);
    assert_eq!(fixture.observable_buffer.range(), (0, 1));
}

#[test]
pub fn emit_first_slice() {
    let mut fixture = fixture();
    fixture.add_slice_of_samples();
    assert_eq!(fixture.observable_buffer.range(), (0, OBSERVABLE_BUFFER_SLICE_SIZE));
    let observations = fixture.observer.observations();
    assert_eq!(observations.len(), 1);
    let observation = observations.get(0).unwrap();
    assert_eq!(observation.slice.len(), OBSERVABLE_BUFFER_SLICE_SIZE);
    for i in 0..OBSERVABLE_BUFFER_SLICE_SIZE {
        assert_eq!(observation.slice[i], i as u32);
    }
}

#[test]
fn no_notification_before_a_full_slice() {
    let mut fixture = fixture();
    for _ in 0..OBSERVABLE_BUFFER_SLICE_SIZE - 1 {
        fixture.add_sample();
    }
    assert!(fixture.observer.observations().is_empty());
}

#[test]
fn emit_second_slice() {
    let mut fixture = fixture();
    fixture.add_slice_of_samples();
    fixture.add_sample();
    assert_eq!(fixture.observable_buffer.range(), (OBSERVABLE_BUFFER_SLICE_SIZE, OBSERVABLE_BUFFER_SLICE_SIZE + 1));
    assert_eq!(fixture.observer.observations().len(), 1);
    for _ in 1..OBSERVABLE_BUFFER_SLICE_SIZE {
        fixture.add_sample();
    }
    assert_eq!(
        fixture.observable_buffer.range(),
        (OBSERVABLE_BUFFER_SLICE_SIZE, 2 * OBSERVABLE_BUFFER_SLICE_SIZE)
    );
    let observations = fixture.observer.observations();
    assert_eq!(observations.len(), 2);
    let second = observations.get(1).unwrap();
    assert_eq!(second.slice.len(), OBSERVABLE_BUFFER_SLICE_SIZE);
    for i in 0..OBSERVABLE_BUFFER_SLICE_SIZE {
        assert_eq!(second.slice[i], (OBSERVABLE_BUFFER_SLICE_SIZE + i) as u32);
    }
}

struct Recorder {
    name: char,
    log: Arc<RefCell<Vec<char>>>,
}

impl Observer<ObservableBufferSlice<u32>> for Recorder {
    fn on_notify(&self, _observable: &ObservableBufferSlice<u32>) {
        self.log.borrow_mut().push(self.name);
    }
}

#[test]
fn every_observer_is_told_in_order() {
    let log = Arc::new(RefCell::new(Vec::new()));
    let mut buffer: ObservableBuffer<u32> = ObservableBuffer::new();
    buffer.add_observer(Arc::new(Recorder { name: 'a', log: log.clone() }));
    buffer.add_observer(Arc::new(Recorder { name: 'b', log: log.clone() }));
    for i in 0..(2 * OBSERVABLE_BUFFER_SLICE_SIZE) as u32 {
        buffer.add_sample(i);
    }
    assert_eq!(*log.borrow(), vec!['a', 'b', 'a', 'b']);
}
