//! The ring buffer between the thread that makes samples and the thread that
//! plays them. It holds samples as 32-bit patterns.

use vstd::prelude::*;

verus! {

/// The end of a ring through which items go in. Nothing is claimed of what is
/// inside.
#[verifier::external_type_specification]
#[verifier::external_body]
#[verifier::reject_recursive_types(T)]
pub struct ExProducer<T>(rtrb::Producer<T>);

/// The end of a ring through which items come out. Nothing is claimed of what is
/// inside.
#[verifier::external_type_specification]
#[verifier::external_body]
#[verifier::reject_recursive_types(T)]
pub struct ExConsumer<T>(rtrb::Consumer<T>);

/// Everything that was ever pushed through a producer, in order.
pub uninterp spec fn ring_sent(p: rtrb::Producer<u32>) -> Seq<u32>;

/// The number of items for which the ring of a producer has room.
pub uninterp spec fn ring_capacity(p: rtrb::Producer<u32>) -> nat;

/// Everything that was ever popped through a consumer, in order.
pub uninterp spec fn ring_received(c: rtrb::Consumer<u32>) -> Seq<u32>;

/// All items that go into the ring of a producer from the day it is made until it
/// is gone, in order. What was pushed so far is the start of it.
pub uninterp spec fn ring_inflow(p: rtrb::Producer<u32>) -> Seq<u32>;

/// All items that come out of the ring of a consumer from the day it is made until
/// it is gone, in order. What was popped so far is the start of it.
pub uninterp spec fn ring_outflow(c: rtrb::Consumer<u32>) -> Seq<u32>;

/// How many items come out of the ring of a producer from the day it is made until
/// it is gone.
pub uninterp spec fn ring_taken(p: rtrb::Producer<u32>) -> nat;

/// The producer and the consumer are the two ends of one ring: what comes out is
/// the start of what goes in.
pub open spec fn same_ring(p: rtrb::Producer<u32>, c: rtrb::Consumer<u32>) -> bool {
    &&& ring_outflow(c).len() == ring_taken(p)
    &&& ring_outflow(c).is_prefix_of(ring_inflow(p))
}

/// What was pushed so far is the start of what goes into the ring.
pub open spec fn sends_in_order(p: rtrb::Producer<u32>) -> bool {
    ring_sent(p).is_prefix_of(ring_inflow(p))
}

/// What was popped so far is the start of what comes out of the ring.
pub open spec fn receives_in_order(c: rtrb::Consumer<u32>) -> bool {
    ring_received(c).is_prefix_of(ring_outflow(c))
}

/// What comes out of a ring is what went in: the items that were popped are the
/// items that were pushed, in the order in which they were pushed, none left out
/// and none twice.
pub proof fn ring_gives_back_what_was_sent(
    p: rtrb::Producer<u32>,
    c: rtrb::Consumer<u32>,
    i: int,
)
    requires
        same_ring(p, c),
        sends_in_order(p),
        receives_in_order(c),
        0 <= i < ring_sent(p).len(),
        i < ring_received(c).len(),
    ensures
        ring_received(c)[i] == ring_sent(p)[i],
{
    let all = ring_inflow(p);
    let out = ring_outflow(c);
    assert(all.subrange(0, ring_sent(p).len() as int)[i] == all[i]);
    assert(all.subrange(0, out.len() as int)[i] == all[i]);
    assert(out.subrange(0, ring_received(c).len() as int)[i] == out[i]);
}

/// `used` may be how many samples wait in the ring of a producer: what was sent,
/// less what the consumer had taken out when they were counted, and no more than
/// the ring has room for.
pub open spec fn may_wait(p: rtrb::Producer<u32>, used: int) -> bool {
    &&& 0 <= used <= ring_capacity(p)
    &&& ring_sent(p).len() - ring_taken(p) <= used <= ring_sent(p).len()
}

/// A sample waits until it is taken: where the consumer takes nothing more, at
/// least the samples wait that were sent and that it has not received.
pub proof fn samples_wait_until_taken(
    p: rtrb::Producer<u32>,
    c: rtrb::Consumer<u32>,
    used: int,
)
    requires
        same_ring(p, c),
        may_wait(p, used),
        ring_received(c) == ring_outflow(c),
    ensures
        used >= ring_sent(p).len() - ring_received(c).len(),
        used <= ring_sent(p).len(),
{
}

/// Calls `rtrb::RingBuffer::new`: the two ends of a ring with room for `capacity`
/// items, through which nothing was sent or received yet. What comes out of it is
/// the start of what goes into it. It panics where so many items are more than a
/// vector can hold.
#[verifier::external_body]
fn make_ring(capacity: usize) -> (r: (rtrb::Producer<u32>, rtrb::Consumer<u32>))
    requires
        4 * capacity <= isize::MAX,
    ensures
        same_ring(r.0, r.1),
        ring_sent(r.0) == Seq::<u32>::empty(),
        ring_capacity(r.0) == capacity,
        ring_received(r.1) == Seq::<u32>::empty(),
{
    rtrb::RingBuffer::<u32>::new(capacity)
}

/// Calls `rtrb::Producer::push`: it appends the item, or hands it back where the
/// ring is full. As the consumer takes items out at any time, which of the two
/// happens is open once as many items were sent as the ring has room for; before
/// that there is room.
#[verifier::external_body]
pub(crate) fn ring_push(p: &mut rtrb::Producer<u32>, item: u32) -> (r: Result<(), u32>)
    ensures
        ring_capacity(*final(p)) == ring_capacity(*old(p)),
        ring_inflow(*final(p)) == ring_inflow(*old(p)),
        ring_taken(*final(p)) == ring_taken(*old(p)),
        sends_in_order(*final(p)),
        match r {
            Ok(_) => ring_sent(*final(p)) == ring_sent(*old(p)).push(item),
            Err(back) => back == item && ring_sent(*final(p)) == ring_sent(*old(p)),
        },
        ring_sent(*old(p)).len() < ring_capacity(*old(p)) ==> r is Ok,
{
    match p.push(item) {
        Ok(()) => Ok(()),
        Err(rtrb::PushError::Full(back)) => Err(back),
    }
}

/// Calls `rtrb::Producer::slots`: the number of free slots, which is the capacity
/// less the items that were sent and that the consumer had not taken out yet. How
/// many it had taken out by then is open; it is never more than come out of the
/// ring in all.
#[verifier::external_body]
fn ring_slots(p: &rtrb::Producer<u32>) -> (r: usize)
    ensures
        may_wait(*p, ring_capacity(*p) - r),
{
    p.slots()
}

/// Calls `rtrb::Consumer::pop`: the next item, or nothing where the ring is
/// empty. The items come in the order in which they were sent. Whether the
/// producer has sent one meanwhile is open, so that nothing is said of when the
/// ring is empty.
#[verifier::external_body]
fn ring_pop(c: &mut rtrb::Consumer<u32>) -> (r: Option<u32>)
    ensures
        ring_outflow(*final(c)) == ring_outflow(*old(c)),
        receives_in_order(*final(c)),
        match r {
            Some(item) => ring_received(*final(c)) == ring_received(*old(c)).push(item),
            None => ring_received(*final(c)) == ring_received(*old(c)),
        },
{
    match c.pop() {
        Ok(item) => Some(item),
        Err(rtrb::PopError::Empty) => None,
    }
}

/// A new ring with room for `capacity` samples.
pub fn new_ring(capacity: usize) -> (r: (rtrb::Producer<u32>, rtrb::Consumer<u32>))
    requires
        4 * capacity <= isize::MAX,
    ensures
        same_ring(r.0, r.1),
        ring_sent(r.0) == Seq::<u32>::empty(),
        ring_capacity(r.0) == capacity,
        ring_received(r.1) == Seq::<u32>::empty(),
{
    make_ring(capacity)
}

/// The number of samples that a ring of this capacity still holds, where so many
/// of its slots are free.
pub fn used_slots(capacity: usize, free: usize) -> (r: usize)
    requires
        free <= capacity,
    ensures
        r == capacity - free,
{
    capacity - free
}

/// The number of samples that wait in a ring of this capacity: those that were
/// sent and that the consumer had not taken out when they were counted.
pub fn ring_used(p: &rtrb::Producer<u32>, capacity: usize) -> (r: usize)
    requires
        ring_capacity(*p) == capacity,
    ensures
        may_wait(*p, r as int),
{
    used_slots(capacity, ring_slots(p))
}

/// What is played: the sample that was popped, or silence, which is the pattern
/// of zero, where there was none.
pub fn sample_or_silence(popped: Option<u32>) -> (r: u32)
    ensures
        r == (match popped {
            Some(item) => item,
            None => 0,
        }),
{
    match popped {
        Some(item) => item,
        None => 0,
    }
}

/// Takes the next sample to play out of the ring; silence where it is empty.
pub fn next_sample(c: &mut rtrb::Consumer<u32>) -> (r: u32)
    ensures
        ring_outflow(*final(c)) == ring_outflow(*old(c)),
        receives_in_order(*final(c)),
        ring_received(*final(c)) == ring_received(*old(c)).push(r) || (r == 0 && ring_received(
            *final(c),
        ) == ring_received(*old(c))),
{
    sample_or_silence(ring_pop(c))
}

} // verus!
