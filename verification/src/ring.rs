//! The ring buffer itself: two cursors rotating through a fixed storage
//! region, with an explicit flag telling a full buffer from an empty one.

use vstd::prelude::*;
use vstd::arithmetic::div_mod::lemma_small_mod;
use vstd::arithmetic::div_mod::lemma_mod_sub_multiples_vanish;
use bytes::BytesMut;
use crate::storage::bytes_model;
use crate::storage::bytes_with_capacity;
use crate::storage::bytes_len;
use crate::storage::bytes_get;
use crate::storage::bytes_push;
use crate::storage::bytes_set;

verus! {

/// A fixed-capacity FIFO queue of bytes. Enqueue and dequeue never shift the
/// stored data: only the `head` and `tail` cursors move, wrapping around the
/// end of the storage region.
pub struct RotatingBuffer {
    /// The storage region holding the bytes.
    buffer: BytesMut,
    /// Index of the oldest enqueued, not-yet-dequeued byte.
    head: usize,
    /// Index of the next write position.
    tail: usize,
    /// Total capacity; fixed at construction.
    size: usize,
    /// Disambiguates `head == tail`: `true` means full, `false` means empty.
    at_capacity: bool,
}

impl RotatingBuffer {
    /// Internal consistency of the cursor/flag scheme. Holds after
    /// construction and after every operation.
    pub closed spec fn wf(self) -> bool {
        &&& self.size >= 3
        &&& self.size <= usize::MAX / 2
        &&& self.head < self.size
        &&& self.tail < self.size
        &&& (self.at_capacity ==> self.head == self.tail)
        &&& bytes_model(self.buffer).len() <= self.size
        &&& self.tail <= bytes_model(self.buffer).len()
        &&& ((self.head > self.tail || self.at_capacity) ==> bytes_model(
            self.buffer,
        ).len() == self.size)
    }

    /// The capacity the buffer was constructed with.
    pub closed spec fn spec_capacity(self) -> nat {
        self.size as nat
    }

    /// The number of queued bytes, computed from the cursors and the flag
    /// alone.
    pub closed spec fn spec_len(self) -> nat {
        if self.tail > self.head {
            (self.tail - self.head) as nat
        } else if self.tail < self.head {
            (self.size - self.head + self.tail) as nat
        } else if self.at_capacity {
            self.size as nat
        } else {
            0
        }
    }

    /// The storage index holding the byte at queue-relative position `p`:
    /// `(p + head) % size`, written without modulus for `0 <= p <= size`.
    pub closed spec fn slot_of(self, p: int) -> int {
        if self.head + p < self.size {
            self.head + p
        } else {
            self.head + p - self.size
        }
    }
}

impl View for RotatingBuffer {
    type V = Seq<u8>;

    /// The queued bytes in FIFO order, oldest first.
    closed spec fn view(&self) -> Seq<u8> {
        Seq::new(self.spec_len(), |p: int| bytes_model(self.buffer)[self.slot_of(p)])
    }
}

impl RotatingBuffer {
    /// Creates a buffer of capacity `size`.
    ///
    /// A capacity of 2 or less cannot tell a full buffer from an empty one
    /// under this cursor/flag scheme, so such a size is ruled out; the upper
    /// bound keeps the storage allocation within the allocator's limits.
    pub fn new(size: usize) -> (r: Self)
        requires
            size >= 3,
            size <= usize::MAX / 2,
        ensures
            r.wf(),
            r@ == Seq::<u8>::empty(),
            r.spec_capacity() == size,
    {
        let r = RotatingBuffer {
            buffer: bytes_with_capacity(size),
            head: 0,
            tail: 0,
            size,
            at_capacity: false,
        };
        proof {
            assert(r@ =~= Seq::<u8>::empty());
        }
        r
    }

    /// Returns the total capacity: the number of bytes that can be enqueued,
    /// without dequeueing, before enqueue fails.
    pub fn capacity(&self) -> (r: usize)
        ensures
            r == self.spec_capacity(),
    {
        self.size
    }

    /// Returns the number of bytes currently in the queue.
    pub fn len(&self) -> (r: usize)
        requires
            self.wf(),
        ensures
            r == self@.len(),
    {
        if self.tail > self.head {
            self.tail - self.head
        } else if self.tail < self.head {
            (self.size - self.head) + self.tail
        } else if self.at_capacity {
            self.size
        } else {
            0
        }
    }

    /// Returns whether the queue holds no bytes.
    pub fn is_empty(&self) -> (r: bool)
        requires
            self.wf(),
        ensures
            r == (self@.len() == 0),
    {
        self.tail == self.head && !self.at_capacity
    }

    /// Returns whether the buffer is full: enqueueing another byte would
    /// fail.
    pub fn at_capacity(&self) -> (r: bool)
        requires
            self.wf(),
        ensures
            r == (self@.len() == self.spec_capacity()),
    {
        self.at_capacity
    }

    /// Sets the head cursor.
    fn set_head(&mut self, head: usize)
        requires
            head < old(self).size,
        ensures
            *final(self) == (RotatingBuffer { head, ..*old(self) }),
    {
        self.head = head;
    }

    /// Sets the tail cursor.
    fn set_tail(&mut self, tail: usize)
        requires
            tail < old(self).size,
        ensures
            *final(self) == (RotatingBuffer { tail, ..*old(self) }),
    {
        self.tail = tail;
    }

    /// Advances the head by one position, wrapping past the end of the
    /// storage region.
    fn incr_head(&mut self)
        requires
            old(self).head < old(self).size,
        ensures
            *final(self) == (RotatingBuffer {
                head: if old(self).head + 1 == old(self).size {
                    0
                } else {
                    (old(self).head + 1) as usize
                },
                ..*old(self)
            }),
    {
        proof {
            lemma_wrap_mod(self.head + 1, self.size as int);
        }
        self.set_head((self.head + 1) % self.size);
    }

    /// Advances the tail by one position, wrapping past the end of the
    /// storage region.
    fn incr_tail(&mut self)
        requires
            old(self).tail < old(self).size,
        ensures
            *final(self) == (RotatingBuffer {
                tail: if old(self).tail + 1 == old(self).size {
                    0
                } else {
                    (old(self).tail + 1) as usize
                },
                ..*old(self)
            }),
    {
        proof {
            lemma_wrap_mod(self.tail + 1, self.size as int);
        }
        self.set_tail((self.tail + 1) % self.size);
    }

    /// Returns the index one slot before the head.
    fn prev_head(&self) -> (r: usize)
        requires
            self.size >= 1,
            self.head < self.size,
        ensures
            r == if self.head == 0 { (self.size - 1) as int } else { (self.head - 1) as int },
            r < self.size,
    {
        match self.head {
            0 => self.size - 1,
            n => n - 1,
        }
    }

    /// Returns the storage index of the first queued byte, or nothing if the
    /// queue is empty.
    fn first_indx(&self) -> (r: Option<usize>)
        requires
            self.wf(),
        ensures
            r == if self@.len() == 0 { None::<usize> } else { Some(self.head) },
    {
        if self.is_empty() {
            None
        } else {
            Some(self.head)
        }
    }

    /// Returns the storage index of the most recently written byte — one
    /// slot before the tail, wrapping — or nothing if the queue is empty.
    fn last_indx(&self) -> (r: Option<usize>)
        requires
            self.wf(),
        ensures
            self@.len() == 0 ==> r is None,
            self@.len() > 0 ==> r == Some(self.slot_of(self@.len() - 1) as usize),
    {
        proof {
            self.lemma_tail_slot();
        }
        if self.is_empty() {
            None
        } else if self.tail == 0 {
            Some(self.size - 1)
        } else {
            Some(self.tail - 1)
        }
    }

    /// Maps a queue-relative position to its storage index:
    /// `(pos + head) % size`.
    fn get_index(&self, pos: usize) -> (r: usize)
        requires
            self.wf(),
            pos < self.size,
        ensures
            r == self.slot_of(pos as int),
            r < self.size,
    {
        proof {
            lemma_wrap_mod(pos + self.head, self.size as int);
        }
        (pos + self.head) % self.size
    }

    /// Reads the byte at a storage index, or nothing if the index lies
    /// beyond the bytes written so far.
    fn get_from_index(&self, index: usize) -> (r: Option<u8>)
        ensures
            index < bytes_model(self.buffer).len() ==> r == Some(
                bytes_model(self.buffer)[index as int],
            ),
            index >= bytes_model(self.buffer).len() ==> r is None,
    {
        bytes_get(&self.buffer, index)
    }

    /// Writes a byte at a storage index, growing the region by one byte when
    /// the index sits just past the bytes written so far. A queue never
    /// writes further than that.
    fn set_value(&mut self, index: usize, value: u8)
        requires
            index <= bytes_model(old(self).buffer).len(),
            index < old(self).size,
            old(self).size <= usize::MAX / 2,
        ensures
            *final(self) == (RotatingBuffer { buffer: final(self).buffer, ..*old(self) }),
            bytes_model(final(self).buffer) == if index == bytes_model(old(self).buffer).len() {
                bytes_model(old(self).buffer).push(value)
            } else {
                bytes_model(old(self).buffer).update(index as int, value)
            },
    {
        let len = bytes_len(&self.buffer);
        if index == len {
            bytes_push(&mut self.buffer, value);
        } else {
            bytes_set(&mut self.buffer, index, value);
        }
    }

    /// The tail always sits one slot past the last queued byte:
    /// `tail == (head + len) % size`.
    proof fn lemma_tail_slot(self)
        requires
            self.wf(),
        ensures
            self.slot_of(self@.len() as int) == self.tail,
    {
    }

    /// Every queued byte lies inside the bytes written so far, so reading it
    /// always succeeds.
    proof fn lemma_slot_in_bounds(self, p: int)
        requires
            self.wf(),
            0 <= p < self@.len(),
        ensures
            0 <= self.slot_of(p) < bytes_model(self.buffer).len(),
            self.slot_of(p) < self.size,
    {
    }

    /// Enqueues a byte at the tail. Fails, handing the byte back, when the
    /// buffer is full; no other byte moves either way.
    pub fn enqueue(&mut self, value: u8) -> (r: Result<(), RotatingBufferAtCapacity>)
        requires
            old(self).wf(),
        ensures
            final(self).wf(),
            final(self).spec_capacity() == old(self).spec_capacity(),
            old(self)@.len() < old(self).spec_capacity() ==> r is Ok && final(self)@ == old(
                self,
            )@.push(value),
            old(self)@.len() == old(self).spec_capacity() ==> r is Err && *final(self) == *old(
                self,
            ),
            r matches Err(e) ==> e@ == value,
    {
        if self.at_capacity() {
            Err(RotatingBufferAtCapacity(value))
        } else {
            let ghost o = *self;
            let tail: usize = self.tail;
            if tail == self.prev_head() {
                self.at_capacity = true;
            }
            self.set_value(tail, value);
            self.incr_tail();
            proof {
                o.lemma_tail_slot();
                assert forall|p: int| 0 <= p < o@.len() implies self@[p] == o@[p] by {
                    o.lemma_slot_in_bounds(p);
                }
                assert(self@[o@.len() as int] == value);
                assert(self@ =~= o@.push(value));
            }
            Ok(())
        }
    }

    /// Dequeues the oldest byte, or nothing if the queue is empty. The
    /// vacated slot is not erased; it is simply no longer reachable through
    /// any read operation.
    pub fn dequeue(&mut self) -> (r: Option<u8>)
        requires
            old(self).wf(),
        ensures
            final(self).wf(),
            final(self).spec_capacity() == old(self).spec_capacity(),
            old(self)@.len() == 0 ==> r is None && *final(self) == *old(self),
            old(self)@.len() > 0 ==> r == Some(old(self)@.first()) && final(self)@ == old(
                self,
            )@.drop_first(),
    {
        let first = self.first_indx();
        match first {
            None => None,
            Some(i) => {
                proof {
                    self.lemma_slot_in_bounds(0);
                }
                match self.get_from_index(i) {
                    Some(value) => {
                        let ghost o = *self;
                        self.incr_head();
                        self.at_capacity = false;
                        proof {
                            assert forall|p: int| 0 <= p < o@.len() - 1 implies self@[p] == o@[p
                                + 1] by {
                                o.lemma_slot_in_bounds(p + 1);
                            }
                            assert(self@ =~= o@.drop_first());
                        }
                        Some(value)
                    },
                    None => vstd::pervasive::unreached(),
                }
            },
        }
    }

    /// Peeks the oldest byte without changing any state, or nothing if the
    /// queue is empty.
    pub fn peek(&self) -> (r: Option<u8>)
        requires
            self.wf(),
        ensures
            self@.len() == 0 ==> r is None,
            self@.len() > 0 ==> r == Some(self@.first()),
    {
        proof {
            if self@.len() > 0 {
                self.lemma_slot_in_bounds(0);
            }
        }
        match self.first_indx() {
            None => None,
            Some(i) => self.get_from_index(i),
        }
    }

    /// Peeks the most recently written byte without changing any state, or
    /// nothing if the queue is empty.
    pub fn peek_last(&self) -> (r: Option<u8>)
        requires
            self.wf(),
        ensures
            self@.len() == 0 ==> r is None,
            self@.len() > 0 ==> r == Some(self@.last()),
    {
        proof {
            if self@.len() > 0 {
                self.lemma_slot_in_bounds(self@.len() - 1);
            }
        }
        match self.last_indx() {
            None => None,
            Some(i) => self.get_from_index(i),
        }
    }

    /// Peeks the byte at queue-relative position `pos` — `0` is the oldest
    /// byte — without changing any state, or nothing if `pos` lies at or
    /// beyond the end of the queue.
    pub fn peek_pos(&self, pos: usize) -> (r: Option<u8>)
        requires
            self.wf(),
        ensures
            pos < self@.len() ==> r == Some(self@[pos as int]),
            pos >= self@.len() ==> r is None,
    {
        let len: usize = self.len();
        if pos >= len {
            None
        } else if pos == 0 {
            self.peek()
        } else if pos == len - 1 {
            self.peek_last()
        } else {
            proof {
                self.lemma_slot_in_bounds(pos as int);
            }
            self.get_from_index(self.get_index(pos))
        }
    }
}

/// The view left by enqueueing the values of `vals`, in order, onto a queue
/// whose view is `s`: each successful enqueue appends one value to the view.
pub open spec fn enqueue_all(s: Seq<u8>, vals: Seq<u8>) -> Seq<u8>
    decreases vals.len(),
{
    if vals.len() == 0 {
        s
    } else {
        enqueue_all(s.push(vals.first()), vals.drop_first())
    }
}

/// The view left by dequeueing `i` times from a queue whose view is `s`:
/// each dequeue drops the first element of the view.
pub open spec fn dequeue_all(s: Seq<u8>, i: int) -> Seq<u8>
    decreases i,
{
    if i <= 0 {
        s
    } else {
        dequeue_all(s.drop_first(), i - 1)
    }
}

/// Enqueueing a run of values appends them, in order, to the view.
pub proof fn lemma_enqueue_all_appends(s: Seq<u8>, vals: Seq<u8>)
    ensures
        enqueue_all(s, vals) == s + vals,
    decreases vals.len(),
{
    if vals.len() == 0 {
        assert(enqueue_all(s, vals) =~= s + vals);
    } else {
        lemma_enqueue_all_appends(s.push(vals.first()), vals.drop_first());
        assert(s.push(vals.first()) + vals.drop_first() =~= s + vals);
    }
}

/// FIFO order: enqueue the values of `vals`, in order, onto an empty queue,
/// then dequeue repeatedly. Each dequeue returns the first element of the
/// view, so after `i` dequeues the next dequeue returns `vals[i]`: the
/// values come out in the exact order they went in.
pub proof fn lemma_fifo_order(vals: Seq<u8>, i: int)
    requires
        0 <= i < vals.len(),
    ensures
        dequeue_all(enqueue_all(Seq::<u8>::empty(), vals), i).first() == vals[i],
{
    lemma_enqueue_all_appends(Seq::<u8>::empty(), vals);
    assert(enqueue_all(Seq::<u8>::empty(), vals) =~= vals);
    lemma_dequeue_all_skips(vals, i);
}

/// Dequeueing `i` times from a queue whose view is `s` leaves the view
/// `s` without its first `i` elements.
pub proof fn lemma_dequeue_all_skips(s: Seq<u8>, i: int)
    requires
        0 <= i <= s.len(),
    ensures
        dequeue_all(s, i) == s.skip(i),
    decreases i,
{
    if i <= 0 {
        assert(dequeue_all(s, i) =~= s.skip(i));
    } else {
        lemma_dequeue_all_skips(s.drop_first(), i - 1);
        assert(s.drop_first().skip(i - 1) =~= s.skip(i));
    }
}

impl RotatingBuffer {
    /// In every well-formed state the logical length stays within the
    /// capacity, and the capacity is at least the construction minimum.
    pub proof fn lemma_len_bounds(self)
        requires
            self.wf(),
        ensures
            self@.len() <= self.spec_capacity(),
            self.spec_capacity() >= 3,
    {
    }
}

/// `(h + p) % n` written without the modulus, for `h + p` below `2n`.
proof fn lemma_wrap_mod(x: int, n: int)
    requires
        0 < n,
        0 <= x < 2 * n,
    ensures
        x % n == if x < n { x } else { x - n },
{
    if x < n {
        lemma_small_mod(x as nat, n as nat);
    } else {
        lemma_mod_sub_multiples_vanish(x, n);
        lemma_small_mod((x - n) as nat, n as nat);
    }
}

/// The error returned by an enqueue onto a full buffer. It carries the
/// rejected byte so that the caller loses no data.
#[derive(Debug)]
pub struct RotatingBufferAtCapacity(u8);

impl View for RotatingBufferAtCapacity {
    type V = u8;

    /// The rejected byte.
    closed spec fn view(&self) -> u8 {
        self.0
    }
}

impl RotatingBufferAtCapacity {
    /// Returns the byte that failed to enqueue.
    pub fn reclaim(&self) -> (r: u8)
        ensures
            r == self@,
    {
        self.0
    }
}

} // verus!
