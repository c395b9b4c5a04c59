//! Circular buffer for continuous audio recording.
//!
//! The buffer holds a fixed amount of recent i16 PCM audio and allows extraction of
//! arbitrary ranges, addressed by the number of samples written before them.
use vstd::prelude::*;
use vstd::arithmetic::div_mod::{lemma_add_mod_noop, lemma_fundamental_div_mod, lemma_small_mod};
use std::sync::{Arc, Mutex};

verus! {

/// Two positions closer than `m` to each other fall into different slots modulo `m`.
proof fn lemma_mod_distinct(a: int, b: int, m: int)
    requires
        m > 0,
        0 <= a < b,
        b - a < m,
    ensures
        a % m != b % m,
{
    lemma_fundamental_div_mod(a, m);
    lemma_fundamental_div_mod(b, m);
    if a % m == b % m {
        let q = b / m - a / m;
        assert(b - a == m * q) by (nonlinear_arith)
            requires
                a == m * (a / m) + a % m,
                b == m * (b / m) + b % m,
                a % m == b % m,
                q == b / m - a / m,
        ;
        assert(false) by (nonlinear_arith)
            requires
                b - a == m * q,
                0 < b - a < m,
                m > 0,
        ;
    }
}

/// The slot after `i` modulo `m`.
proof fn lemma_mod_next(i: int, m: int)
    requires
        m > 0,
        i >= 0,
    ensures
        ((i % m) + 1) % m == (i + 1) % m,
{
    lemma_add_mod_noop(i, 1, m);
    if m > 1 {
        lemma_small_mod(1, m as nat);
    } else {
        assert(m == 1);
        assert(i % m == 0) by (nonlinear_arith)
            requires
                m == 1,
        ;
        assert(1int % m == 0) by (nonlinear_arith)
            requires
                m == 1,
        ;
    }
}

/// A circular buffer for storing i16 PCM audio samples.
///
/// The buffer has a fixed capacity and overwrites old data when full.
/// It tracks the total number of samples written to support accurate
/// range extraction even after wraparound.
pub struct CircularBuffer {
    buffer: Vec<i16>,
    capacity: usize,
    /// Current write position (0..capacity)
    write_index: usize,
    /// Total samples written since creation (monotonically increasing)
    total_written: usize,
    /// Every sample written since creation, in order
    history: Ghost<Seq<i16>>,
}

/// The earliest position still held by a buffer of `capacity` after `total` writes.
pub open spec fn oldest(total: int, capacity: int) -> int {
    if total >= capacity { total - capacity } else { 0 }
}

/// The positions, as (start, count), that `extract_range(start_index, sample_count)` returns:
/// the part of the requested positions `start_index .. start_index + sample_count` that the
/// buffer still holds (from the oldest retained position up to the current one); an empty
/// span at the current position when none of them is held.
pub open spec fn extracted_span(total: int, capacity: int, start_index: int, sample_count: int) -> (int, int) {
    let first = oldest(total, capacity);
    let lo = if start_index < first { first } else { start_index };
    let end = start_index + sample_count;
    let hi = if end < total { end } else { total };
    if lo < hi { (lo, hi - lo) } else { (total, 0) }
}

impl CircularBuffer {
    /// Every sample written since the buffer was created, in order.
    pub closed spec fn written(&self) -> Seq<i16> {
        self.history@
    }

    /// The number of samples the buffer holds at most.
    pub closed spec fn cap(&self) -> nat {
        self.capacity as nat
    }

    /// The samples the buffer still holds, oldest first.
    pub open spec fn retained(&self) -> Seq<i16> {
        self.written().subrange(oldest(self.written().len() as int, self.cap() as int), self.written().len() as int)
    }

    /// Well-formedness: each retained sample sits in the slot of its position modulo the capacity.
    pub closed spec fn wf(&self) -> bool {
        &&& self.buffer@.len() == self.capacity
        &&& self.history@.len() == self.total_written
        &&& self.capacity > 0 ==> self.write_index == self.total_written % self.capacity
        &&& self.capacity == 0 ==> self.write_index == 0 && self.total_written == 0
        &&& forall|g: int|
            oldest(self.total_written as int, self.capacity as int) <= g < self.total_written ==>
                #[trigger] self.history@[g] == self.buffer@[g % (self.capacity as int)]
    }

    /// Create a new circular buffer holding at most `capacity` samples.
    pub fn new(capacity: usize) -> (b: CircularBuffer)
        ensures
            b.wf(),
            b.cap() == capacity,
            b.written() == Seq::<i16>::empty(),
    {
        CircularBuffer {
            buffer: vec![0i16; capacity],
            capacity,
            write_index: 0,
            total_written: 0,
            history: Ghost(Seq::empty()),
        }
    }

    /// Write samples to the buffer.
    ///
    /// Returns the global index (in total-written space) where the first sample was written.
    pub fn write_samples(&mut self, samples: &[i16]) -> (start_index: usize)
        requires
            old(self).wf(),
            old(self).cap() > 0 || samples@.len() == 0,
            old(self).written().len() + samples@.len() <= usize::MAX,
        ensures
            final(self).wf(),
            final(self).cap() == old(self).cap(),
            final(self).written() == old(self).written() + samples@,
            start_index == old(self).written().len(),
    {
        let start_index = self.total_written;
        let ghost start_hist = self.history@;
        let mut k: usize = 0;
        while k < samples.len()
            invariant
                self.wf(),
                self.capacity > 0 || samples@.len() == 0,
                k <= samples.len(),
                self.capacity == old(self).capacity,
                start_hist == old(self).history@,
                start_index == start_hist.len(),
                start_index + samples@.len() <= usize::MAX,
                self.history@ == start_hist + samples@.take(k as int),
            decreases samples.len() - k,
        {
            let sample = samples[k];
            let ghost t = self.total_written as int;
            let ghost cap = self.capacity as int;
            let ghost old_buf = self.buffer@;
            let ghost old_hist = self.history@;
            self.buffer.set(self.write_index, sample);
            proof {
                lemma_mod_next(t, cap);
            }
            self.write_index = (self.write_index + 1) % self.capacity;
            self.total_written = self.total_written + 1;
            self.history = Ghost(self.history@.push(sample));
            proof {
                assert forall|g: int|
                    oldest(t + 1, cap) <= g < t + 1 implies #[trigger] self.history@[g] == self.buffer@[g
                        % cap] by {
                    if g < t {
                        lemma_mod_distinct(g, t, cap);
                        assert(old_hist[g] == old_buf[g % cap]);
                    }
                }
                assert(samples@.take(k as int + 1) == samples@.take(k as int).push(sample));
            }
            k += 1;
        }
        proof {
            assert(samples@.take(samples@.len() as int) == samples@);
        }
        start_index
    }

    /// Get the current write index (total samples written).
    ///
    /// This value can be saved and later used with `extract_range` to retrieve
    /// the audio recorded between two points in time.
    pub fn get_current_index(&self) -> (n: usize)
        requires
            self.wf(),
        ensures
            n == self.written().len(),
    {
        self.total_written
    }

    /// Total samples written since creation.
    pub fn total_written(&self) -> (n: usize)
        requires
            self.wf(),
        ensures
            n == self.written().len(),
    {
        self.total_written
    }

    /// The slot the next sample goes to.
    pub fn write_index(&self) -> (n: usize)
        requires
            self.wf(),
        ensures
            self.cap() > 0 ==> n == self.written().len() % self.cap(),
            self.cap() == 0 ==> n == 0,
    {
        self.write_index
    }

    /// Maximum number of samples held.
    pub fn capacity(&self) -> (n: usize)
        requires
            self.wf(),
        ensures
            n == self.cap(),
    {
        self.capacity
    }

    /// Extract a range of samples from the buffer.
    ///
    /// Extracts samples from `start_index` (inclusive) up to `sample_count` samples.
    /// If part of the requested range is no longer in the buffer (overwritten), returns only
    /// the available portion, or an empty vector when none of it is available; a start at or
    /// beyond the current position gives an empty vector.
    pub fn extract_range(&self, start_index: usize, sample_count: usize) -> (r: Vec<i16>)
        requires
            self.wf(),
        ensures
            ({
                let span = extracted_span(self.written().len() as int, self.cap() as int, start_index as int, sample_count as int);
                r@ == self.written().subrange(span.0, span.0 + span.1)
            }),
    {
        let oldest_available = self.total_written.saturating_sub(self.capacity);
        let lo = if start_index < oldest_available { oldest_available } else { start_index };
        let end = start_index.saturating_add(sample_count);
        let hi = if end < self.total_written { end } else { self.total_written };
        if lo < hi {
            self.extract_range_internal(lo, hi - lo)
        } else {
            let r: Vec<i16> = Vec::new();
            proof {
                assert(r@ =~= self.written().subrange(self.total_written as int, self.total_written as int));
            }
            r
        }
    }

    /// Copy out `count` samples starting at global position `start_index`, all of which are retained.
    fn extract_range_internal(&self, start_index: usize, count: usize) -> (r: Vec<i16>)
        requires
            self.wf(),
            oldest(self.total_written as int, self.capacity as int) <= start_index,
            start_index + count <= self.total_written,
        ensures
            r@ == self.written().subrange(start_index as int, start_index + count),
    {
        let mut result: Vec<i16> = Vec::with_capacity(count);
        let mut i: usize = 0;
        while i < count
            invariant
                self.wf(),
                oldest(self.total_written as int, self.capacity as int) <= start_index,
                start_index + count <= self.total_written,
                i <= count,
                result@ == self.history@.subrange(start_index as int, start_index + i),
            decreases count - i,
        {
            let global_index = start_index + i;
            let buffer_index = global_index % self.capacity;
            result.push(self.buffer[buffer_index]);
            proof {
                assert(self.history@[global_index as int] == self.buffer@[global_index as int % (self.capacity as int)]);
                assert(self.history@.subrange(start_index as int, start_index + i + 1) == self.history@.subrange(
                    start_index as int,
                    start_index + i,
                ).push(self.history@[global_index as int]));
            }
            i += 1;
        }
        result
    }
}

/// Reading back what was just written: samples written at index `start` are returned whole by
/// `extract_range(start, n)` as long as they still fit in the buffer.
pub proof fn law_read_back_write(before: Seq<i16>, samples: Seq<i16>, capacity: nat)
    requires
        samples.len() <= capacity,
    ensures
        ({
            let after = before + samples;
            let span = extracted_span(after.len() as int, capacity as int, before.len() as int, samples.len() as int);
            after.subrange(span.0, span.0 + span.1) == samples
        }),
{
    let after = before + samples;
    assert(after.subrange(before.len() as int, after.len() as int) =~= samples);
}

/// After a write, each of the newest `capacity` samples written can be read back alone at its
/// own position: writing `samples` after `before` and extracting one sample at position
/// `before.len() + i` gives `samples[i]` whenever at most `capacity` samples were written from
/// there on.
pub proof fn law_write_keeps_newest(before: Seq<i16>, samples: Seq<i16>, capacity: nat, i: int)
    requires
        capacity > 0,
        0 <= i < samples.len(),
        samples.len() - i <= capacity,
    ensures
        ({
            let after = before + samples;
            let span = extracted_span(after.len() as int, capacity as int, before.len() + i, 1);
            after.subrange(span.0, span.0 + span.1) == seq![samples[i]]
        }),
{
    let after = before + samples;
    let span = extracted_span(after.len() as int, capacity as int, before.len() + i, 1);
    assert(span == (before.len() + i, 1int));
    assert(after.subrange(span.0, span.0 + span.1) =~= seq![samples[i]]);
}

/// Extraction returns only positions that were asked for and are still retained: never more
/// than was asked for, nor more than the buffer holds.
pub proof fn law_extract_within_retained(total: int, capacity: int, start_index: int, sample_count: int)
    requires
        total >= 0,
        capacity >= 0,
        start_index >= 0,
        sample_count >= 0,
    ensures
        ({
            let span = extracted_span(total, capacity, start_index, sample_count);
            &&& 0 <= span.1 <= sample_count
            &&& span.1 <= capacity
            &&& span.1 > 0 ==> {
                &&& oldest(total, capacity) <= span.0
                &&& start_index <= span.0
                &&& span.0 + span.1 <= total
                &&& span.0 + span.1 <= start_index + sample_count
            }
        }),
{
}

/// std's mutual-exclusion lock, carried through as an opaque value.
#[verifier::external_type_specification]
#[verifier::external_body]
#[verifier::reject_recursive_types(T)]
pub struct ExMutex<T: ?Sized>(Mutex<T>);

/// Thread-safe wrapper around CircularBuffer
pub type SharedBuffer = Arc<Mutex<CircularBuffer>>;

/// The capacity of the buffer a shared cell was created with. What the lock holds later is not
/// described: vstd gives `Mutex` no specification.
pub uninterp spec fn shared_capacity(b: SharedBuffer) -> nat;

/// The samples written into the buffer a shared cell was created with, as they were then. What
/// the lock holds later is not described.
pub uninterp spec fn shared_written(b: SharedBuffer) -> Seq<i16>;

/// Puts a buffer behind a mutex shared by reference counting (std `Arc::new(Mutex::new(..))`);
/// the cell holds that buffer, so it was created with the buffer's capacity and samples.
#[verifier::external_body]
fn share(buffer: CircularBuffer) -> (r: SharedBuffer)
    ensures
        shared_capacity(r) == buffer.cap(),
        shared_written(r) == buffer.written(),
{
    Arc::new(Mutex::new(buffer))
}

/// Create a new shared circular buffer of the given capacity, with nothing written yet.
pub fn create_shared_buffer(capacity: usize) -> (r: SharedBuffer)
    ensures
        shared_capacity(r) == capacity,
        shared_written(r) == Seq::<i16>::empty(),
{
    share(CircularBuffer::new(capacity))
}

} // verus!
