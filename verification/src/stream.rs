//! The stream buffer: a bounded window over the most recent samples.
//!
//! Samples arrive in batches of any length. The buffer keeps them in the
//! order in which they arrived and never holds more than its capacity: when
//! a batch would make it longer, the oldest samples leave, and no more of
//! them than necessary.

use vstd::prelude::*;

verus! {

/// The last `limit` elements of `s`, or all of `s` where it has no more than that.
pub open spec fn keep_last<T>(s: Seq<T>, limit: nat) -> Seq<T> {
    if s.len() <= limit {
        s
    } else {
        s.subrange(s.len() - limit, s.len() as int)
    }
}

/// Cutting to the last `limit` elements before more are added changes
/// nothing of what the last `limit` elements are afterwards.
pub proof fn lemma_keep_last_absorbs<T>(held: Seq<T>, batch: Seq<T>, limit: nat)
    ensures
        keep_last(keep_last(held, limit) + batch, limit) == keep_last(held + batch, limit),
{
    assert(keep_last(keep_last(held, limit) + batch, limit) =~= keep_last(held + batch, limit));
}

/// A bounded first-in, first-out buffer of samples that overwrites its
/// oldest content once it is full.
///
/// Its view is the sequence of samples it holds, oldest first. Its history
/// is the sequence of all samples that were ever appended to it. At all
/// times the view is the history cut to its last `capacity` samples.
///
/// The samples live in the tail of `store`, from index `start` on. Evicting
/// is moving `start` forward; the dead prefix is cut off once it is at least
/// as long as the live tail, so that an append costs constant time per sample
/// on average and the live samples are always one contiguous slice.
pub struct StreamBuffer<T> {
    store: Vec<T>,
    start: usize,
    capacity: usize,
    history: Ghost<Seq<T>>,
}

impl<T> View for StreamBuffer<T> {
    type V = Seq<T>;

    closed spec fn view(&self) -> Seq<T> {
        self.store@.subrange(self.start as int, self.store@.len() as int)
    }
}

impl<T> StreamBuffer<T> {
    #[verifier::type_invariant]
    spec fn window_in_order(self) -> bool {
        &&& self.start <= self.store@.len()
        &&& self.store@.len() - self.start <= self.capacity
        &&& self@ =~= keep_last(self.history@, self.capacity as nat)
    }

    /// The largest number of samples the buffer ever holds.
    pub closed spec fn spec_capacity(&self) -> usize {
        self.capacity
    }

    /// Every sample that was ever appended, in the order of arrival.
    pub closed spec fn history(&self) -> Seq<T> {
        self.history@
    }

    /// An empty buffer that will hold at most `capacity` samples.
    pub fn new(capacity: usize) -> (buffer: Self)
        ensures
            buffer@ == Seq::<T>::empty(),
            buffer.history() == Seq::<T>::empty(),
            buffer.capacity() == capacity,
    {
        StreamBuffer { store: Vec::new(), start: 0, capacity, history: Ghost(Seq::empty()) }
    }

    /// The largest number of samples the buffer ever holds.
    #[verifier::when_used_as_spec(spec_capacity)]
    pub fn capacity(&self) -> (capacity: usize)
        ensures
            capacity == self.spec_capacity(),
    {
        self.capacity
    }

    /// The number of samples held: all that ever arrived, until they are
    /// more than the capacity, and the capacity from then on.
    pub fn len(&self) -> (len: usize)
        ensures
            len == self@.len(),
            len <= self.capacity(),
            len == if self.history().len() <= self.capacity() {
                self.history().len()
            } else {
                self.capacity() as nat
            },
    {
        proof {
            use_type_invariant(self);
        }
        self.store.len() - self.start
    }

    /// Whether the buffer holds no sample.
    pub fn is_empty(&self) -> (empty: bool)
        ensures
            empty <==> self@.len() == 0,
    {
        proof {
            use_type_invariant(self);
        }
        self.store.len() == self.start
    }

    /// All held samples, oldest first, as one slice: the last `capacity`
    /// samples of all that ever arrived, in the order of arrival. Nothing is
    /// copied.
    pub fn contiguous_view(&self) -> (samples: &[T])
        ensures
            samples@ == self@,
            samples@ == keep_last(self.history(), self.capacity() as nat),
    {
        proof {
            use_type_invariant(self);
        }
        let stored = self.store.as_slice();
        &stored[self.start..stored.len()]
    }

    /// The most recent `count` samples, oldest first, or all of them where
    /// the buffer holds fewer. Nothing is copied.
    pub fn recent(&self, count: usize) -> (samples: &[T])
        ensures
            samples@ == keep_last(self@, count as nat),
    {
        proof {
            use_type_invariant(self);
        }
        let stored = self.store.as_slice();
        let held = stored.len() - self.start;
        let from = if held <= count {
            self.start
        } else {
            stored.len() - count
        };
        &stored[from..stored.len()]
    }

    /// Appends `batch` in order. Where the buffer would then hold more than
    /// its capacity, the oldest samples leave until it holds exactly that
    /// many; a batch longer than the capacity leaves only its own tail.
    pub fn append(&mut self, batch: &[T]) where T: Copy
        ensures
            final(self)@ == keep_last(old(self)@ + batch@, old(self).capacity() as nat),
            final(self).history() == old(self).history() + batch@,
            final(self)@ == keep_last(final(self).history(), final(self).capacity() as nat),
            final(self).capacity() == old(self).capacity(),
            final(self)@.len() <= final(self).capacity(),
            final(self).history().len() >= final(self).capacity() ==> final(self)@.len()
                == final(self).capacity(),
            final(self)@.len() == if old(self)@.len() + batch@.len() <= old(self).capacity() {
                old(self)@.len() + batch@.len()
            } else {
                old(self).capacity() as nat
            },
    {
        let ghost before = self@;
        let capacity = self.capacity;
        // The samples are moved out while the window is rebuilt, so that
        // `self` is a buffer in good order at every point in between.
        let mut taken = StreamBuffer {
            store: Vec::new(),
            start: 0,
            capacity,
            history: Ghost(Seq::empty()),
        };
        core::mem::swap(self, &mut taken);
        proof {
            use_type_invariant(&taken);
        }
        let StreamBuffer { store, start, capacity: _, history } = taken;
        let mut store = store;
        let n = batch.len();
        // Of a batch longer than the capacity only the tail can stay.
        let skip = if n > capacity {
            n - capacity
        } else {
            0
        };
        let incoming = n - skip;
        let room = capacity - (store.len() - start);
        let evicted = if incoming > room {
            incoming - room
        } else {
            0
        };
        let mut start = start + evicted;
        if start > 0 && start >= store.len() - start {
            store = store.split_off(start);
            start = 0;
        }
        let mut i = skip;
        while i < n
            invariant
                skip <= i <= n,
                n == batch@.len(),
                start <= store@.len(),
                store@.len() - start + (n - i) <= capacity,
                store@.subrange(start as int, store@.len() as int) == before.skip(evicted as int)
                    + batch@.subrange(skip as int, i as int),
            decreases n - i,
        {
            let ghost live = store@.subrange(start as int, store@.len() as int);
            store.push(batch[i]);
            assert(store@.subrange(start as int, store@.len() as int) == live.push(batch@[i as int]));
            i = i + 1;
        }
        proof {
            lemma_keep_last_absorbs(history@, batch@, capacity as nat);
        }
        *self = StreamBuffer { store, start, capacity, history: Ghost(history@ + batch@) };
    }
}

} // verus!
