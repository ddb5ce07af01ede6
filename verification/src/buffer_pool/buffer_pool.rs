use vstd::prelude::*;
use std::sync::Arc;

verus! {

/// `Arc::clone`: another handle on the same shared value.
#[verifier::external_body]
fn share<T>(shared: &Arc<T>) -> (copy: Arc<T>)
    ensures
        copy == *shared,
{
    Arc::clone(shared)
}

/// A buffer and whether it is handed out.
struct Buffer<T> {
    samples: Arc<T>,
    in_use: bool,
}

/// Whether buffer `i` is the first not in use.
pub open spec fn is_first_free(in_use: Seq<bool>, i: int) -> bool {
    &&& 0 <= i < in_use.len()
    &&& !in_use[i]
    &&& forall|j: int| 0 <= j < i ==> #[trigger] in_use[j]
}

/// Whether every buffer is in use.
pub open spec fn all_in_use(in_use: Seq<bool>) -> bool {
    forall|j: int| 0 <= j < in_use.len() ==> #[trigger] in_use[j]
}

/// A fixed set of shared buffers, handed out and given back by index.
pub struct BufferPool<T> {
    buffers: Vec<Buffer<T>>,
}

impl<T> BufferPool<T> {
    /// Whether each buffer, by index, is handed out.
    pub closed spec fn in_use(&self) -> Seq<bool> {
        self.buffers@.map_values(|b: Buffer<T>| b.in_use)
    }

    /// The buffers, by index.
    pub closed spec fn buffers(&self) -> Seq<Arc<T>> {
        self.buffers@.map_values(|b: Buffer<T>| b.samples)
    }

    /// A pool of the given buffers, none handed out.
    pub fn new(buffers: Vec<Arc<T>>) -> (pool: Self)
        ensures
            pool.buffers() == buffers@,
            pool.in_use() == Seq::new(buffers@.len(), |i: int| false),
    {
        let mut pool_buffers: Vec<Buffer<T>> = Vec::new();
        let mut i: usize = 0;
        while i < buffers.len()
            invariant
                i <= buffers@.len(),
                pool_buffers@.len() == i,
                forall|j: int| 0 <= j < i ==> (#[trigger] pool_buffers@[j]).samples == buffers@[j],
                forall|j: int| 0 <= j < i ==> !(#[trigger] pool_buffers@[j]).in_use,
            decreases buffers.len() - i,
        {
            let samples = share(&buffers[i]);
            pool_buffers.push(Buffer { samples, in_use: false });
            i += 1;
        }
        let pool = BufferPool { buffers: pool_buffers };
        assert(pool.buffers() =~= buffers@);
        assert(pool.in_use() =~= Seq::new(buffers@.len(), |i: int| false));
        pool
    }

    /// Hands out the first buffer not in use, with its index; none if all are in use.
    pub fn allocate(&mut self) -> (allocated: Option<(usize, Arc<T>)>)
        ensures
            final(self).buffers() == old(self).buffers(),
            match allocated {
                Some((index, samples)) => {
                    &&& is_first_free(old(self).in_use(), index as int)
                    &&& samples == old(self).buffers()[index as int]
                    &&& final(self).in_use() == old(self).in_use().update(index as int, true)
                },
                None => all_in_use(old(self).in_use()) && final(self).in_use() == old(self).in_use(),
            },
    {
        let mut index: usize = 0;
        while index < self.buffers.len()
            invariant
                self.buffers@ == old(self).buffers@,
                index <= self.buffers@.len(),
                forall|j: int| 0 <= j < index ==> (#[trigger] self.buffers@[j]).in_use,
            decreases self.buffers.len() - index,
        {
            if !self.buffers[index].in_use {
                let samples = share(&self.buffers[index].samples);
                let mut buffer = self.buffers.remove(index);
                buffer.in_use = true;
                self.buffers.insert(index, buffer);
                proof {
                    let in_use = old(self).in_use();
                    assert forall|j: int| 0 <= j < index implies #[trigger] in_use[j] by {
                        assert(self.buffers@[j].in_use);
                    }
                    assert(self.in_use() =~= in_use.update(index as int, true));
                    assert(self.buffers() =~= old(self).buffers());
                }
                return Some((index, samples));
            }
            index += 1;
        }
        proof {
            assert forall|i: int| 0 <= i < old(self).in_use().len() implies old(self).in_use()[i] by {
                assert(self.buffers@[i].in_use);
            }
        }
        None
    }

    /// Gives back the buffer with the given index: true if it was in use, false (a double
    /// free) if it was not.
    pub fn free(&mut self, index: usize) -> (freed: bool)
        requires
            index < old(self).in_use().len(),
        ensures
            freed == old(self).in_use()[index as int],
            final(self).in_use() == old(self).in_use().update(index as int, false),
            final(self).buffers() == old(self).buffers(),
    {
        if self.buffers[index].in_use {
            let mut buffer = self.buffers.remove(index);
            buffer.in_use = false;
            self.buffers.insert(index, buffer);
            assert(self.in_use() =~= old(self).in_use().update(index as int, false));
            assert(self.buffers() =~= old(self).buffers());
            true
        } else {
            assert(self.in_use() =~= old(self).in_use().update(index as int, false));
            false
        }
    }
}

/// Giving back a buffer just handed out leaves the buffers in use as they were before, and
/// that buffer is again the first to be handed out.
pub proof fn lemma_free_undoes_allocate(in_use: Seq<bool>, i: int)
    requires
        is_first_free(in_use, i),
    ensures
        in_use.update(i, true)[i],
        in_use.update(i, true).update(i, false) == in_use,
        is_first_free(in_use.update(i, true).update(i, false), i),
{
    assert(in_use.update(i, true).update(i, false) =~= in_use);
}

} // verus!
