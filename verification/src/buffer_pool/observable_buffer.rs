use vstd::prelude::*;
use std::sync::Arc;
use crate::patterns::observer::{active_ids, ConcreteObserverList, Observable, Observer, ObserverList};

verus! {

/// The number of samples in each slice that observers are told about.
pub const OBSERVABLE_BUFFER_SLICE_SIZE: usize = 1920;

/// The number of samples the buffer holds.
pub const OBSERVABLE_BUFFER_SIZE: usize = OBSERVABLE_BUFFER_SLICE_SIZE * 2;

/// A run of samples, as observers are told about it.
#[derive(Clone)]
pub struct ObservableBufferSlice<T> {
    pub slice: Vec<T>,
}

impl<T: Clone + Send> Observable for ObservableBufferSlice<T> {

}

/// A buffer of samples; each time a slice's worth of new samples has been stored, its
/// observers are told about that slice. The observers may be of one type, or of any type as
/// `dyn Observer`.
pub struct ObservableBuffer<T: Clone + Send, B: ?Sized = dyn Observer<ObservableBufferSlice<T>>> {
    buffer: Vec<T>,
    observers: ConcreteObserverList<B>,
    from: usize,
    to: usize,
    told: Ghost<Seq<Seq<T>>>,
    told_to: Ghost<Seq<Seq<usize>>>,
}

/// The `j`th slice of samples: samples `SLICE * j` up to `SLICE * (j + 1)`.
pub open spec fn nth_slice<T>(samples: Seq<T>, j: int) -> Seq<T> {
    samples.subrange(
        OBSERVABLE_BUFFER_SLICE_SIZE * j,
        OBSERVABLE_BUFFER_SLICE_SIZE * (j + 1),
    )
}

impl<T: Copy + Default + Send, B: Observer<ObservableBufferSlice<T>> + ?Sized> ObservableBuffer<T, B> {
    /// The buffer's samples, stored or not.
    pub closed spec fn samples(&self) -> Seq<T> {
        self.buffer@
    }

    /// Where the stored samples start and end: the start is that of the slice being filled,
    /// or of the slice just told about.
    pub closed spec fn stored_range(&self) -> (usize, usize) {
        (self.from, self.to)
    }

    /// The slices the observers have been told about, in order.
    pub closed spec fn slices_told(&self) -> Seq<Seq<T>> {
        self.told@
    }

    /// For each slice told about, the ids of the observers told, in the order they were told.
    pub closed spec fn observers_told(&self) -> Seq<Seq<usize>> {
        self.told_to@
    }

    /// Whether each observer, by id, is active.
    pub closed spec fn observers_active(&self) -> Seq<bool> {
        self.observers.active_flags()
    }

    /// The observer registered under each id.
    pub closed spec fn observers_registered(&self) -> Seq<Arc<B>> {
        self.observers.registered_observers()
    }

    /// The buffer has its full size; the stored samples lie within it, after the slices told
    /// about; the `j`th slice told about is the `j`th slice of samples; and a slice is told
    /// about as soon as it is complete.
    pub open spec fn well_formed(&self) -> bool {
        let (from, to) = self.stored_range();
        let n = self.slices_told().len();
        &&& self.samples().len() == OBSERVABLE_BUFFER_SIZE
        &&& from <= to <= OBSERVABLE_BUFFER_SIZE
        &&& self.observers_told().len() == n
        &&& if to - from == OBSERVABLE_BUFFER_SLICE_SIZE {
            n >= 1 && from == OBSERVABLE_BUFFER_SLICE_SIZE * (n - 1)
        } else {
            to - from < OBSERVABLE_BUFFER_SLICE_SIZE && from == OBSERVABLE_BUFFER_SLICE_SIZE * n
        }
        &&& forall|j: int|
            0 <= j < n ==> #[trigger] self.slices_told()[j] == nth_slice(self.samples(), j)
    }

    /// An empty buffer of default samples, with no observers.
    pub fn new() -> (buffer: Self)
        ensures
            buffer.well_formed(),
            buffer.stored_range() == (0usize, 0usize),
            buffer.observers_active() == Seq::<bool>::empty(),
            buffer.observers_registered() == Seq::<Arc<B>>::empty(),
            buffer.slices_told() == Seq::<Seq<T>>::empty(),
            buffer.observers_told() == Seq::<Seq<usize>>::empty(),
    {
        let mut vec: Vec<T> = Vec::new();
        let mut i: usize = 0;
        while i < OBSERVABLE_BUFFER_SIZE
            invariant
                i <= OBSERVABLE_BUFFER_SIZE,
                vec.len() == i,
            decreases OBSERVABLE_BUFFER_SIZE - i,
        {
            vec.push(T::default());
            i += 1;
        }
        Self {
            buffer: vec,
            observers: ConcreteObserverList::new(),
            from: 0,
            to: 0,
            told: Ghost(Seq::empty()),
            told_to: Ghost(Seq::empty()),
        }
    }

    /// Adds an observer, active, which is told about each slice from now on.
    pub fn add_observer(&mut self, observer: Arc<B>)
        requires
            old(self).observers_active().len() < usize::MAX,
        ensures
            final(self).observers_active() == old(self).observers_active().push(true),
            final(self).observers_registered() == old(self).observers_registered().push(observer),
            final(self).samples() == old(self).samples(),
            final(self).stored_range() == old(self).stored_range(),
            final(self).slices_told() == old(self).slices_told(),
            final(self).observers_told() == old(self).observers_told(),
    {
        self.observers.register_observer(observer);
    }

    /// Stores a sample after those stored. Once a slice has been told about, the next sample
    /// starts a new slice. When a slice's worth of samples is stored, the active observers are
    /// told about it, in order of registration, and it is added to `slices_told`.
    pub fn add_sample(&mut self, sample: T)
        requires
            old(self).well_formed(),
            old(self).stored_range().1 < OBSERVABLE_BUFFER_SIZE,
        ensures
            final(self).well_formed(),
            final(self).samples() == old(self).samples().update(
                old(self).stored_range().1 as int,
                sample,
            ),
            final(self).stored_range() == ((if old(self).stored_range().1 - old(
                self,
            ).stored_range().0 == OBSERVABLE_BUFFER_SLICE_SIZE {
                old(self).stored_range().1
            } else {
                old(self).stored_range().0
            }), (old(self).stored_range().1 + 1) as usize),
            final(self).observers_active() == old(self).observers_active(),
            final(self).observers_registered() == old(self).observers_registered(),
            (old(self).stored_range().1 + 1) % (OBSERVABLE_BUFFER_SLICE_SIZE as int) == 0 ==> {
                &&& final(self).slices_told() == old(self).slices_told().push(
                    nth_slice(final(self).samples(), old(self).slices_told().len() as int),
                )
                &&& final(self).observers_told() == old(self).observers_told().push(
                    active_ids(old(self).observers_active()),
                )
            },
            (old(self).stored_range().1 + 1) % (OBSERVABLE_BUFFER_SLICE_SIZE as int) != 0 ==> {
                &&& final(self).slices_told() == old(self).slices_told()
                &&& final(self).observers_told() == old(self).observers_told()
            },
    {
        if self.to - self.from == OBSERVABLE_BUFFER_SLICE_SIZE {
            self.from = self.to;
        }
        let ghost n = self.told@.len();
        let ghost before = self.buffer@;
        self.buffer.set(self.to, sample);
        self.to = self.to + 1;
        proof {
            assert forall|j: int| 0 <= j < n implies #[trigger] self.told@[j] == nth_slice(
                self.buffer@,
                j,
            ) by {
                assert(nth_slice(self.buffer@, j) =~= nth_slice(before, j));
            }
        }
        let stored_amount = self.to - self.from;
        if stored_amount == OBSERVABLE_BUFFER_SLICE_SIZE {
            let observable = ObservableBufferSlice { slice: self.stored_samples() };
            let told_ids = self.observers.notify_observers(&observable);
            proof {
                assert(observable.slice@ =~= nth_slice(self.buffer@, n as int));
                self.told@ = self.told@.push(observable.slice@);
                self.told_to@ = self.told_to@.push(told_ids@);
            }
        }
    }

    /// The stored samples, copied.
    fn stored_samples(&self) -> (slice: Vec<T>)
        requires
            self.samples().len() == OBSERVABLE_BUFFER_SIZE,
            self.from <= self.to <= OBSERVABLE_BUFFER_SIZE,
        ensures
            slice@ == self.samples().subrange(self.from as int, self.to as int),
    {
        let mut slice: Vec<T> = Vec::new();
        let mut i: usize = self.from;
        while i < self.to
            invariant
                self.samples().len() == OBSERVABLE_BUFFER_SIZE,
                self.from <= i <= self.to <= OBSERVABLE_BUFFER_SIZE,
                slice@ == self.samples().subrange(self.from as int, i as int),
            decreases self.to - i,
        {
            slice.push(self.buffer[i]);
            i += 1;
        }
        slice
    }

    /// A buffer holds at most `usize::MAX` observers, and one registered observer per flag.
    pub proof fn lemma_observer_count(&self)
        ensures
            self.observers_active().len() <= usize::MAX,
            self.observers_registered().len() == self.observers_active().len(),
    {
        self.observers.lemma_observer_count();
    }

    /// A buffer that has stored `k` samples since it was made has told its observers about
    /// `k / SLICE` slices.
    pub proof fn lemma_slices_told_count(&self)
        requires
            self.well_formed(),
        ensures
            self.slices_told().len() == self.stored_range().1 / OBSERVABLE_BUFFER_SLICE_SIZE,
            self.observers_told().len() == self.slices_told().len(),
    {
    }

    /// Where the stored samples start and end.
    pub fn range(&self) -> (range: (usize, usize))
        ensures
            range == self.stored_range(),
    {
        (self.from, self.to)
    }
}

} // verus!
