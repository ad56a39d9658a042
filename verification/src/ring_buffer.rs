//! A bounded single-producer / single-consumer FIFO queue.
//!
//! The queue stores values in a fixed array of `capacity` slots, where
//! `capacity` is a power of two. Two indices walk the array: `head`, the next
//! slot to write, advanced only by the producer, and `tail`, the next slot to
//! read, advanced only by the consumer. Indices wrap with a bitmask
//! (`index & (capacity - 1)`). One slot stays permanently unused so that
//! `head == tail` means "empty" and never "full": the usable capacity is
//! `capacity - 1`.
//!
//! A [`RingBuffer`] is created with [`RingBuffer::new`] and then split once
//! into a [`Producer`] handle and a [`Consumer`] handle. The slot array and
//! the two indices live in [`SharedState`], which every operation takes by
//! reference; the contracts prove the single-writer protocol that makes the
//! scheme sound: `push` changes only `head` and the one slot it fills, `pop`
//! changes only `tail` and the one slot it empties, and each side consults
//! the other's index through a cached copy that is refreshed only when the
//! cached value alone would make the operation fail.

use vstd::prelude::*;

verus! {

/// Errors returned by ring buffer operations.
#[derive(Debug, PartialEq, Eq, Structural)]
pub enum RingBufferError {
    /// The requested capacity is zero or not a power of two.
    InvalidCapacity(usize),
    /// The buffer holds `capacity - 1` values; nothing more can be pushed.
    BufferFull,
    /// The buffer holds no value; nothing can be popped.
    BufferEmpty,
}

impl Clone for RingBufferError {
    fn clone(&self) -> (other: RingBufferError)
        ensures
            other == *self,
    {
        match self {
            RingBufferError::InvalidCapacity(capacity) => RingBufferError::InvalidCapacity(
                *capacity,
            ),
            RingBufferError::BufferFull => RingBufferError::BufferFull,
            RingBufferError::BufferEmpty => RingBufferError::BufferEmpty,
        }
    }
}

/// A capacity is valid when it is a power of two, i.e. positive with exactly
/// one bit set.
pub open spec fn valid_capacity(capacity: usize) -> bool {
    capacity > 0 && capacity & ((capacity - 1) as usize) == 0
}

/// Forward distance from slot index `from` to slot index `to` on a ring of
/// `cap` slots, for indices already reduced into `[0, cap)`.
pub open spec fn ring_distance(to: int, from: int, cap: int) -> int {
    if to >= from {
        to - from
    } else {
        cap - from + to
    }
}

/// The state shared between the producer and the consumer: the slot array and
/// the two indices. A lock-free deployment shares this state between two
/// threads through atomic loads and stores of `head` and `tail`; under
/// Verus's ownership discipline the sharing is explicit instead — the caller
/// passes the state to each operation — and the contracts prove that each
/// side writes only its own index.
pub struct SharedState<T> {
    /// `capacity` slots; a slot is `Some` exactly while it holds a live,
    /// unconsumed value.
    slots: Vec<Option<T>>,
    /// `capacity - 1`, used as the wrap mask.
    mask: usize,
    /// Next slot to write; advanced only by the producer.
    head: usize,
    /// Next slot to read; advanced only by the consumer.
    tail: usize,
}

impl<T> SharedState<T> {
    /// Total number of slots, including the one reserved slot.
    pub closed spec fn capacity_spec(self) -> int {
        self.mask as int + 1
    }

    pub closed spec fn head_spec(self) -> int {
        self.head as int
    }

    pub closed spec fn tail_spec(self) -> int {
        self.tail as int
    }

    /// How many slots hold live values.
    pub closed spec fn occupied(self) -> int {
        ring_distance(self.head as int, self.tail as int, self.capacity_spec())
    }

    /// Slot index holding the `i`-th oldest live value.
    pub closed spec fn position(self, i: int) -> int {
        if self.tail + i < self.capacity_spec() {
            self.tail + i
        } else {
            self.tail + i - self.capacity_spec()
        }
    }

    pub closed spec fn wf(self) -> bool {
        &&& self.slots@.len() == self.mask as int + 1
        &&& valid_capacity((self.mask + 1) as usize)
        &&& self.mask < usize::MAX
        &&& self.head <= self.mask
        &&& self.tail <= self.mask
        &&& forall|i: int| 0 <= i < self.occupied() ==> self.slots@[#[trigger] self.position(i)] is Some
    }
}

impl<T> View for SharedState<T> {
    type V = Seq<T>;

    /// The live values, oldest first.
    closed spec fn view(&self) -> Seq<T> {
        Seq::new(self.occupied() as nat, |i: int| self.slots@[self.position(i)].unwrap())
    }
}

/// A bounded single-producer / single-consumer FIFO queue, before it is split
/// into its two handles.
pub struct RingBuffer<T> {
    state: SharedState<T>,
}

impl<T> View for RingBuffer<T> {
    type V = Seq<T>;

    closed spec fn view(&self) -> Seq<T> {
        self.state@
    }
}

impl<T> RingBuffer<T> {
    pub closed spec fn wf(self) -> bool {
        self.state.wf()
    }

    pub closed spec fn capacity_spec(self) -> int {
        self.state.capacity_spec()
    }

    /// Creates a ring buffer with `capacity` slots, of which `capacity - 1`
    /// are usable. The capacity must be a power of two; any other value is
    /// rejected with `InvalidCapacity`.
    pub fn new(capacity: usize) -> (result: Result<RingBuffer<T>, RingBufferError>)
        ensures
            match result {
                Ok(buffer) => {
                    &&& valid_capacity(capacity)
                    &&& buffer.wf()
                    &&& buffer.capacity_spec() == capacity
                    &&& buffer@ == Seq::<T>::empty()
                },
                Err(e) => {
                    &&& !valid_capacity(capacity)
                    &&& e == RingBufferError::InvalidCapacity(capacity)
                },
            },
    {
        if capacity == 0 || (capacity & (capacity - 1)) != 0 {
            return Err(RingBufferError::InvalidCapacity(capacity));
        }

        let mut slots: Vec<Option<T>> = Vec::with_capacity(capacity);
        let mut i: usize = 0;
        while i < capacity
            invariant
                i <= capacity,
                slots@.len() == i,
            decreases capacity - i,
        {
            slots.push(None);
            i = i + 1;
        }

        let buffer = RingBuffer {
            state: SharedState { slots, mask: capacity - 1, head: 0, tail: 0 },
        };
        proof {
            assert(buffer@ =~= Seq::<T>::empty());
        }
        Ok(buffer)
    }

    /// The total number of slots, including the one reserved slot.
    pub fn capacity(&self) -> (c: usize)
        requires
            self.wf(),
        ensures
            c == self.capacity_spec(),
    {
        self.state.slots.len()
    }

    /// Consumes the buffer and returns the producer handle, the consumer
    /// handle and the shared state they operate on. The handles cannot be
    /// copied or cloned, so exactly one producer and one consumer exist per
    /// buffer.
    pub fn split(self) -> (r: (Producer, Consumer, SharedState<T>))
        requires
            self.wf(),
        ensures
            r.0.wf(r.2),
            r.1.wf(r.2),
            r.2.wf(),
            r.2@ == self@,
            r.2.capacity_spec() == self.capacity_spec(),
    {
        let RingBuffer { state } = self;
        let producer = Producer {
            mask: state.mask,
            capacity: state.mask + 1,
            cached_tail: state.tail,
        };
        let consumer = Consumer {
            mask: state.mask,
            capacity: state.mask + 1,
            cached_head: state.head,
        };
        (producer, consumer, state)
    }
}

/// Wrapping a slot index with the mask of a power-of-two capacity steps it
/// around the ring: the successor of `mask` is `0`, every other index just
/// increments.
proof fn lemma_wrap_next(x: usize, y: usize, cap: usize, mask: usize)
    by (bit_vector)
    requires
        cap == mask + 1,
        cap & mask == 0,
        x <= mask,
        y == x + 1,
    ensures
        x < mask ==> y & mask == y,
        x == mask ==> y & mask == 0,
{
}

/// The producer half of a ring buffer: the only writer of `head`.
pub struct Producer {
    /// Copy of the shared state's wrap mask.
    mask: usize,
    /// Copy of the shared state's total slot count.
    capacity: usize,
    /// The producer's possibly stale copy of `tail`. It only ever lags the
    /// true `tail`, so the queue can only look fuller than it is, never
    /// emptier; a push is rejected only after refreshing the copy.
    cached_tail: usize,
}

impl Producer {
    /// The handle matches the shared state, and the occupancy that the cached
    /// `tail` suggests is never below the true occupancy.
    pub closed spec fn wf<T>(self, state: SharedState<T>) -> bool {
        &&& state.wf()
        &&& self.mask as int == state.capacity_spec() - 1
        &&& self.capacity as int == state.capacity_spec()
        &&& self.cached_tail <= self.mask
        &&& state.occupied() <= ring_distance(
            state.head_spec(),
            self.cached_tail as int,
            state.capacity_spec(),
        )
    }

    /// Pushes `value` into the buffer, unless it already holds
    /// `capacity - 1` values; then the buffer is left unchanged and the
    /// rejected value is handed back to the caller beside `BufferFull`,
    /// never dropped. `tail` and the live slots are untouched, so a consumer
    /// handle stays valid across the call.
    pub fn push<T>(&mut self, state: &mut SharedState<T>, value: T) -> (result: Result<
        (),
        (RingBufferError, T),
    >)
        requires
            old(self).wf(*old(state)),
        ensures
            final(self).wf(*final(state)),
            final(state).wf(),
            final(state).capacity_spec() == old(state).capacity_spec(),
            final(state).tail_spec() == old(state).tail_spec(),
            match result {
                Ok(()) => final(state)@ == old(state)@.push(value),
                Err((e, rejected)) => {
                    &&& e == RingBufferError::BufferFull
                    &&& rejected == value
                    &&& *final(state) == *old(state)
                },
            },
            result is Ok <==> old(state)@.len() < old(state).capacity_spec() - 1,
            forall|consumer: Consumer| consumer.wf(*old(state)) ==> consumer.wf(*final(state)),
    {
        let head = state.head;
        let next_head = (head + 1) & self.mask;
        proof {
            lemma_wrap_next(head, (head + 1) as usize, self.capacity, self.mask);
        }

        if next_head == self.cached_tail {
            self.cached_tail = state.tail;
            if next_head == self.cached_tail {
                return Err((RingBufferError::BufferFull, value));
            }
        }

        state.slots[head] = Some(value);
        state.head = next_head;

        proof {
            assert forall|i: int| 0 <= i < old(state).occupied() implies {
                &&& state.position(i) == old(state).position(i)
                &&& state.position(i) != head
                &&& state.slots@[state.position(i)] == old(state).slots@[old(state).position(i)]
            } by {
                assert(old(state).position(old(state).occupied()) == head);
            }
            assert(state.position(old(state).occupied()) == head);
            assert(state@ =~= old(state)@.push(value));
        }
        Ok(())
    }

    /// How many more values fit before the buffer is full; at most
    /// `capacity - 1` and advisory only under concurrent use: it can be stale
    /// the instant the call returns.
    pub fn remaining_capacity<T>(&self, state: &SharedState<T>) -> (r: usize)
        requires
            self.wf(*state),
        ensures
            r == state.capacity_spec() - 1 - state@.len(),
    {
        let head = state.head;
        let tail = state.tail;

        if head >= tail {
            self.capacity - 1 - (head - tail)
        } else {
            tail - head - 1
        }
    }

    /// Whether the buffer holds `capacity - 1` values, so that the next push
    /// would fail.
    pub fn is_full<T>(&self, state: &SharedState<T>) -> (r: bool)
        requires
            self.wf(*state),
        ensures
            r == (state@.len() == state.capacity_spec() - 1),
    {
        self.remaining_capacity(state) == 0
    }
}

/// The consumer half of a ring buffer: the only writer of `tail`.
pub struct Consumer {
    /// Copy of the shared state's wrap mask.
    mask: usize,
    /// Copy of the shared state's total slot count.
    capacity: usize,
    /// The consumer's possibly stale copy of `head`. It only ever lags the
    /// true `head`, so the queue can only look emptier than it is, never
    /// fuller; a pop is rejected only after refreshing the copy.
    cached_head: usize,
}

impl Consumer {
    /// The handle matches the shared state, and the occupancy that the cached
    /// `head` suggests never exceeds the true occupancy.
    pub closed spec fn wf<T>(self, state: SharedState<T>) -> bool {
        &&& state.wf()
        &&& self.mask as int == state.capacity_spec() - 1
        &&& self.capacity as int == state.capacity_spec()
        &&& self.cached_head <= self.mask
        &&& ring_distance(self.cached_head as int, state.tail_spec(), state.capacity_spec())
            <= state.occupied()
    }

    /// Pops the oldest value, unless the buffer is empty; then the buffer is
    /// left unchanged and `BufferEmpty` is returned. `head` and the remaining
    /// live slots are untouched, so a producer handle stays valid across the
    /// call.
    pub fn pop<T>(&mut self, state: &mut SharedState<T>) -> (result: Result<T, RingBufferError>)
        requires
            old(self).wf(*old(state)),
        ensures
            final(self).wf(*final(state)),
            final(state).wf(),
            final(state).capacity_spec() == old(state).capacity_spec(),
            final(state).head_spec() == old(state).head_spec(),
            match result {
                Ok(value) => {
                    &&& old(state)@.len() > 0
                    &&& value == old(state)@[0]
                    &&& final(state)@ == old(state)@.subrange(1, old(state)@.len() as int)
                },
                Err(e) => {
                    &&& e == RingBufferError::BufferEmpty
                    &&& *final(state) == *old(state)
                },
            },
            result is Ok <==> old(state)@.len() > 0,
            forall|producer: Producer| producer.wf(*old(state)) ==> producer.wf(*final(state)),
    {
        let tail = state.tail;

        if tail == self.cached_head {
            self.cached_head = state.head;
            if tail == self.cached_head {
                return Err(RingBufferError::BufferEmpty);
            }
        }

        proof {
            assert(old(state).position(0) == tail);
        }
        let slot = &mut state.slots[tail];
        let taken = slot.take();
        let value = taken.unwrap();

        let next_tail = (tail + 1) & self.mask;
        proof {
            lemma_wrap_next(tail, (tail + 1) as usize, self.capacity, self.mask);
        }
        state.tail = next_tail;

        proof {
            assert forall|i: int| 0 <= i < state.occupied() implies {
                &&& state.position(i) == old(state).position(i + 1)
                &&& state.position(i) != tail
                &&& state.slots@[state.position(i)] == old(state).slots@[old(state).position(i + 1)]
            } by {
                assert(old(state).position(0) == tail);
            }
            assert(state@ =~= old(state)@.subrange(1, old(state)@.len() as int));
        }
        Ok(value)
    }

    /// How many values are waiting to be popped; advisory only under
    /// concurrent use: it can be stale the instant the call returns.
    pub fn len<T>(&self, state: &SharedState<T>) -> (r: usize)
        requires
            self.wf(*state),
        ensures
            r == state@.len(),
    {
        let head = state.head;
        let tail = state.tail;

        if head >= tail {
            head - tail
        } else {
            self.capacity - tail + head
        }
    }

    /// Whether the buffer holds no value, so that the next pop would fail.
    pub fn is_empty<T>(&self, state: &SharedState<T>) -> (r: bool)
        requires
            self.wf(*state),
        ensures
            r == (state@.len() == 0),
    {
        self.len(state) == 0
    }
}

/// Usable capacity: a well-formed buffer never holds more than
/// `capacity - 1` values, whatever pushes and pops led to its state. The
/// reserved slot is what lets `head == tail` mean "empty" unambiguously.
pub proof fn lemma_len_bounded<T>(state: SharedState<T>)
    requires
        state.wf(),
    ensures
        0 <= state@.len() <= state.capacity_spec() - 1,
{
}

/// Snapshot invariant: what [`Consumer::len`] and
/// [`Producer::remaining_capacity`] return for the same state always sums to
/// `capacity - 1`.
pub proof fn lemma_snapshot_invariant<T>(state: SharedState<T>, waiting: usize, free: usize)
    requires
        state.wf(),
        waiting == state@.len(),
        free == state.capacity_spec() - 1 - state@.len(),
    ensures
        waiting + free == state.capacity_spec() - 1,
{
}

/// Round trip: in an empty buffer, the value a push stores is exactly the
/// value the next pop returns — [`Producer::push`] appends to the view and
/// [`Consumer::pop`] returns its first element.
pub proof fn lemma_push_pop_round_trip<T>(contents: Seq<T>, value: T)
    requires
        contents.len() == 0,
    ensures
        contents.push(value)[0] == value,
{
}

/// The capacities [`RingBuffer::new`] accepts are exactly the powers of two:
/// the single-bit test that `valid_capacity` performs agrees with the
/// arithmetic definition of a power of two.
pub proof fn lemma_valid_capacity_is_power_of_two(capacity: usize)
    ensures
        valid_capacity(capacity) <==> vstd::arithmetic::power2::is_pow2(capacity as int),
    decreases capacity,
{
    reveal(vstd::arithmetic::power2::is_pow2);
    if capacity == 0 {
        // Neither side holds.
    } else if capacity == 1 {
        assert(1usize & 0usize == 0) by (bit_vector);
    } else {
        let c: usize = capacity;
        let m: usize = (c - 1) as usize;
        let h: usize = c / 2;
        let hm: usize = (h - 1) as usize;
        lemma_valid_capacity_is_power_of_two(h);
        assert(c % 2 == 1 ==> c & m != 0) by (bit_vector)
            requires
                c >= 2,
                m == c - 1,
        ;
        assert(c & m == 0 && c % 2 == 0 ==> h & hm == 0 && h >= 1) by (bit_vector)
            requires
                c >= 2,
                m == c - 1,
                h == c / 2,
                hm == h - 1,
        ;
        assert(h & hm == 0 && h >= 1 && c % 2 == 0 ==> c & m == 0) by (bit_vector)
            requires
                c >= 2,
                m == c - 1,
                h == c / 2,
                hm == h - 1,
        ;
    }
}

} // verus!
