//! One audio channel: a fixed-capacity queue of sample bit patterns.
//!
//! The queue is an `arraydeque::ArrayDeque`, a stack-allocated ring buffer,
//! so a processing tick allocates nothing. The deque is opaque to the
//! verifier, and so is the `Channel` struct that carries it;
//! `queue_samples` names the queue's front-to-back contents, and a small
//! set of trusted wrappers states what each operation does to them.

use vstd::prelude::*;

use arraydeque::ArrayDeque;
use arraydeque::Saturating;

verus! {

/// Number of samples a populated channel holds in one processing block.
pub const BUFFER_SIZE: usize = 32;

/// One channel of audio for a processing block: a queue of up to
/// `BUFFER_SIZE` sample bit patterns.
#[verifier::external_body]
#[derive(Debug)]
pub struct Channel {
    q: ArrayDeque<u32, BUFFER_SIZE, Saturating>,
}

/// The samples a channel's queue holds, front to back.
pub uninterp spec fn queue_samples(c: Channel) -> Seq<u32>;

impl View for Channel {
    type V = Seq<u32>;

    open spec fn view(&self) -> Seq<u32> {
        queue_samples(*self)
    }
}

/// Relies on `ArrayDeque::new`: a fresh deque holds no elements.
#[verifier::external_body]
fn queue_new() -> (c: Channel)
    ensures
        queue_samples(c) == Seq::<u32>::empty(),
{
    Channel { q: ArrayDeque::new() }
}

/// Relies on `ArrayDeque::len`: the number of elements held.
#[verifier::external_body]
fn queue_len(c: &Channel) -> (n: usize)
    ensures
        n == queue_samples(*c).len(),
{
    c.q.len()
}

/// Relies on `ArrayDeque`'s `Index` impl: the element at `i`, front to back.
#[verifier::external_body]
fn queue_get(c: &Channel, i: usize) -> (s: u32)
    requires
        i < queue_samples(*c).len(),
    ensures
        s == queue_samples(*c)[i as int],
{
    c.q[i]
}

/// Relies on `ArrayDeque`'s `IndexMut` impl: overwrites the element at `i`
/// in place, leaving the rest unchanged.
#[verifier::external_body]
fn queue_set(c: &mut Channel, i: usize, s: u32)
    requires
        i < queue_samples(*old(c)).len(),
    ensures
        queue_samples(*final(c)) == queue_samples(*old(c)).update(i as int, s),
{
    c.q[i] = s;
}

/// Relies on `ArrayDeque::push_back` under saturating behaviour: appends at
/// the back when the deque is not full.
#[verifier::external_body]
fn queue_push(c: &mut Channel, s: u32)
    requires
        queue_samples(*old(c)).len() < BUFFER_SIZE,
    ensures
        queue_samples(*final(c)) == queue_samples(*old(c)).push(s),
{
    let _ = c.q.push_back(s);
}

/// Relies on `ArrayDeque::clear`: removes every element.
#[verifier::external_body]
fn queue_clear(c: &mut Channel)
    ensures
        queue_samples(*final(c)) == Seq::<u32>::empty(),
{
    c.q.clear();
}

impl Channel {
    /// An empty channel.
    pub fn new() -> (c: Channel)
        ensures
            c@ == Seq::<u32>::empty(),
    {
        queue_new()
    }

    /// The number of samples currently held.
    pub fn len(&self) -> (n: usize)
        ensures
            n == self@.len(),
    {
        queue_len(self)
    }

    /// The sample at position `i`, front to back.
    pub fn get(&self, i: usize) -> (s: u32)
        requires
            i < self@.len(),
        ensures
            s == self@[i as int],
    {
        queue_get(self, i)
    }

    /// Overwrites the sample at position `i`.
    pub fn set(&mut self, i: usize, s: u32)
        requires
            i < old(self)@.len(),
        ensures
            final(self)@ == old(self)@.update(i as int, s),
    {
        queue_set(self, i, s)
    }

    /// Appends a sample at the back; the channel must not be full.
    pub fn push(&mut self, s: u32)
        requires
            old(self)@.len() < BUFFER_SIZE,
        ensures
            final(self)@ == old(self)@.push(s),
    {
        queue_push(self, s)
    }

    /// Empties the channel without releasing its backing storage.
    pub fn clear(&mut self)
        ensures
            final(self)@ == Seq::<u32>::empty(),
    {
        queue_clear(self)
    }
}

} // verus!
