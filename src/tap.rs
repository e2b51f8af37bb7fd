//! The visualization tap: a bounded single-producer, single-consumer ring of
//! samples. The render side pushes without blocking and drops what does not
//! fit; the control side drains it lazily.

use vstd::prelude::*;

verus! {

#[verifier::external_type_specification]
#[verifier::external_body]
#[verifier::reject_recursive_types(T)]
pub struct ExProducer<T>(ringbuf::Producer<T>);

#[verifier::external_type_specification]
#[verifier::external_body]
#[verifier::reject_recursive_types(T)]
pub struct ExConsumer<T>(ringbuf::Consumer<T>);

/// How many samples the visualization ring holds.
pub const VISUALIZATION_CAPACITY: usize = 0x10000;

/// Every sample this producing end has put into its ring, in order. Only
/// this end adds to it.
pub uninterp spec fn pushed_log(p: ringbuf::Producer<i32>) -> Seq<i32>;

/// Every sample this consuming end has taken out of its ring, in order. Only
/// this end adds to it.
pub uninterp spec fn popped_log(c: ringbuf::Consumer<i32>) -> Seq<i32>;

/// Relies on `ringbuf::RingBuffer::new` and `split`: a new empty ring of the
/// given capacity, with its two ends, neither of which has been used.
#[verifier::external_body]
fn split_ring(capacity: usize) -> (r: (ringbuf::Producer<i32>, ringbuf::Consumer<i32>))
    requires
        (capacity as int + 1) * 4 <= isize::MAX,
    ensures
        pushed_log(r.0) == Seq::<i32>::empty(),
        popped_log(r.1) == Seq::<i32>::empty(),
{
    ringbuf::RingBuffer::new(capacity).split()
}

/// Relies on `ringbuf::Producer::push`, which never blocks: the sample goes
/// into the ring, or is handed back when the ring is full. Whether there is
/// room depends on the consuming thread, so only what was pushed is stated.
#[verifier::external_body]
pub(crate) fn push_sample(p: &mut ringbuf::Producer<i32>, x: i32) -> (pushed: bool)
    ensures
        pushed ==> pushed_log(*final(p)) == pushed_log(*old(p)).push(x),
        !pushed ==> pushed_log(*final(p)) == pushed_log(*old(p)),
{
    p.push(x).is_ok()
}

/// Relies on `ringbuf::Consumer::pop`, which never blocks: the oldest sample,
/// taken out of the ring, or `None` when the ring is empty. What the ring
/// holds depends on the producing thread, so only what was taken is stated.
#[verifier::external_body]
fn pop_sample(c: &mut ringbuf::Consumer<i32>) -> (r: Option<i32>)
    ensures
        r matches Some(x) ==> popped_log(*final(c)) == popped_log(*old(c)).push(x),
        r is None ==> popped_log(*final(c)) == popped_log(*old(c)),
{
    c.pop()
}

/// The consuming end of the visualization ring.
pub struct VisualizationTap {
    pub consumer: ringbuf::Consumer<i32>,
    /// The capacity the ring was made with.
    pub capacity: usize,
}

impl VisualizationTap {
    /// A new empty ring of `capacity` samples: its producing end, for the
    /// render side, and the tap that drains it.
    pub fn new(capacity: usize) -> (r: (ringbuf::Producer<i32>, VisualizationTap))
        requires
            (capacity as int + 1) * 4 <= isize::MAX,
        ensures
            r.1.capacity == capacity,
            popped_log(r.1.consumer) == Seq::<i32>::empty(),
            pushed_log(r.0) == Seq::<i32>::empty(),
    {
        let (producer, consumer) = split_ring(capacity);
        (producer, VisualizationTap { consumer, capacity })
    }

    /// Takes the samples out of the ring, oldest first, until it is empty or
    /// `capacity` samples were taken, and returns them. Never blocks; empty
    /// when the ring is empty.
    pub fn drain(&mut self) -> (r: Vec<i32>)
        ensures
            final(self).capacity == old(self).capacity,
            popped_log(final(self).consumer) == popped_log(old(self).consumer) + r@,
            r@.len() <= old(self).capacity,
    {
        let mut out: Vec<i32> = Vec::new();
        let mut n: usize = 0;
        while n < self.capacity
            invariant
                out@.len() == n,
                n <= self.capacity,
                self.capacity == old(self).capacity,
                popped_log(self.consumer) == popped_log(old(self).consumer) + out@,
            decreases self.capacity - n,
        {
            let ghost taken = out@;
            match pop_sample(&mut self.consumer) {
                Some(x) => {
                    out.push(x);
                    n = n + 1;
                    proof {
                        assert(popped_log(old(self).consumer) + out@ =~= (popped_log(old(self).consumer)
                            + taken).push(x));
                    }
                },
                None => {
                    break;
                },
            }
        }
        out
    }
}

} // verus!
