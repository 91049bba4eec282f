//! The ticket queue that bounds the number of requests in flight.
//!
//! A ticket is a unit in a bounded channel. A request takes one ticket when it
//! is submitted and gives it back when it is closed, so the tickets in the
//! queue and the requests in flight always add up to the capacity.

use vstd::prelude::*;

verus! {

/// Largest capacity that a ticket queue can be made with: beyond it the
/// channel underneath refuses to be built.
pub const MAX_TICKETS: usize = 0x3fff_ffff;

/// `crossbeam::channel::Sender`: the sending end of a channel. Nothing is
/// known of what is inside.
#[verifier::external_type_specification]
#[verifier::external_body]
#[verifier::reject_recursive_types(T)]
pub struct ExSender<T>(crossbeam::channel::Sender<T>);

/// `crossbeam::channel::Receiver`: the receiving end of a channel. Nothing is
/// known of what is inside.
#[verifier::external_type_specification]
#[verifier::external_body]
#[verifier::reject_recursive_types(T)]
pub struct ExReceiver<T>(crossbeam::channel::Receiver<T>);

/// The messages that wait in the channel of which `rx` is the receiving end,
/// oldest first.
pub uninterp spec fn queued(rx: crossbeam::channel::Receiver<()>) -> Seq<()>;

/// The capacity that the channel of `rx` was made with.
pub uninterp spec fn bound(rx: crossbeam::channel::Receiver<()>) -> nat;

/// A bounded queue of tickets.
///
/// The queue owns both ends of its channel and hands out neither, so nothing
/// but its own methods changes what the channel holds.
pub struct TicketQueue {
    tx: crossbeam::channel::Sender<()>,
    rx: crossbeam::channel::Receiver<()>,
}

impl TicketQueue {
    /// Number of tickets in the queue.
    pub closed spec fn available(&self) -> nat {
        queued(self.rx).len()
    }

    /// Number of tickets that the queue can hold.
    pub closed spec fn capacity(&self) -> nat {
        bound(self.rx)
    }

    /// The queue holds no more tickets than its capacity, and the capacity is
    /// one that a queue can be made with.
    pub open spec fn wf(&self) -> bool {
        &&& 1 <= self.capacity() <= MAX_TICKETS
        &&& self.available() <= self.capacity()
    }

    /// `crossbeam::channel::bounded`: a channel that holds at most `cap`
    /// messages and is empty at first. A zero capacity makes a channel of
    /// another kind, and a capacity whose next power of two cannot be doubled
    /// makes the call panic; both are left out.
    #[verifier::external_body]
    fn bounded(cap: usize) -> (q: TicketQueue)
        requires
            1 <= cap <= MAX_TICKETS,
        ensures
            queued(q.rx).len() == 0,
            bound(q.rx) == cap,
    {
        let (tx, rx) = crossbeam::channel::bounded(cap);
        TicketQueue { tx, rx }
    }

    /// `Sender::try_send`: the message is queued unless the channel is full.
    /// The receiving end is alive, so a full channel is the only refusal.
    #[verifier::external_body]
    fn try_send(&mut self) -> (accepted: bool)
        ensures
            accepted == (queued(old(self).rx).len() < bound(old(self).rx)),
            bound(final(self).rx) == bound(old(self).rx),
            queued(final(self).rx) == if accepted {
                queued(old(self).rx).push(())
            } else {
                queued(old(self).rx)
            },
    {
        self.tx.try_send(()).is_ok()
    }

    /// `Receiver::try_recv`: the oldest message is taken unless the channel is
    /// empty.
    #[verifier::external_body]
    fn try_recv(&mut self) -> (taken: bool)
        ensures
            taken == (queued(old(self).rx).len() > 0),
            bound(final(self).rx) == bound(old(self).rx),
            queued(final(self).rx) == if taken {
                queued(old(self).rx).drop_first()
            } else {
                queued(old(self).rx)
            },
    {
        self.rx.try_recv().is_ok()
    }

    /// `Receiver::len`: the number of messages in the channel.
    #[verifier::external_body]
    fn len(&self) -> (n: usize)
        ensures
            n == queued(self.rx).len(),
    {
        self.rx.len()
    }

    /// `Receiver::capacity`: the capacity of a bounded channel.
    #[verifier::external_body]
    fn channel_capacity(&self) -> (cap: Option<usize>)
        ensures
            cap == Some(bound(self.rx) as usize),
    {
        self.rx.capacity()
    }

    /// A queue of the given capacity, filled with tickets.
    pub fn new(capacity: usize) -> (q: Self)
        requires
            1 <= capacity <= MAX_TICKETS,
        ensures
            q.wf(),
            q.capacity() == capacity,
            q.available() == capacity,
    {
        let mut q = Self::bounded(capacity);
        let mut i: usize = 0;
        while i < capacity
            invariant
                i <= capacity,
                q.capacity() == capacity,
                q.available() == i,
            decreases capacity - i,
        {
            let accepted = q.try_send();
            assert(accepted);
            i = i + 1;
        }
        q
    }

    /// Takes a ticket. Returns `false`, and leaves the queue as it is, when
    /// and only when no ticket is available.
    pub fn acquire(&mut self) -> (taken: bool)
        requires
            old(self).wf(),
        ensures
            final(self).wf(),
            taken == (old(self).available() > 0),
            final(self).capacity() == old(self).capacity(),
            final(self).available() == if taken {
                old(self).available() - 1
            } else {
                old(self).available() as int
            },
    {
        self.try_recv()
    }

    /// Gives a ticket back. Returns `false`, and leaves the queue as it is,
    /// when and only when the queue is full.
    pub fn release(&mut self) -> (returned: bool)
        requires
            old(self).wf(),
        ensures
            final(self).wf(),
            returned == (old(self).available() < old(self).capacity()),
            final(self).capacity() == old(self).capacity(),
            final(self).available() == if returned {
                old(self).available() + 1
            } else {
                old(self).available()
            },
    {
        self.try_send()
    }

    /// Number of tickets in the queue.
    pub fn available_tickets(&self) -> (n: usize)
        ensures
            n == self.available(),
    {
        self.len()
    }

    /// Number of tickets that the queue can hold.
    pub fn max_tickets(&self) -> (n: usize)
        requires
            self.wf(),
        ensures
            n == self.capacity(),
    {
        match self.channel_capacity() {
            Some(cap) => cap,
            None => 0,
        }
    }
}

} // verus!
