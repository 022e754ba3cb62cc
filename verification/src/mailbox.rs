//! The mailbox of a module: a bounded queue from the one task that produces
//! its values to the one relay that consumes them.

use vstd::prelude::*;
use std::collections::VecDeque;

verus! {

/// What became of a value that was offered to a mailbox.
pub enum Sent<S> {
    /// The value is in the queue.
    Accepted,
    /// The queue is full. The value comes back; the producer waits for room
    /// and offers it again.
    Full(S),
    /// One side of the mailbox is gone. The value comes back.
    Closed(S),
}

/// What a mailbox hands to its consumer.
pub enum Taken<S> {
    /// The oldest value of the queue.
    Value(S),
    /// Nothing is queued; the producer may still send.
    Empty,
    /// Nothing is queued and the producer is gone.
    Closed,
}

/// A mailbox as a mathematical value.
pub struct MailboxView<S> {
    /// The queued values, oldest first.
    pub queue: Seq<S>,
    pub capacity: nat,
    /// Whether the producer is still there.
    pub sending: bool,
    /// Whether the consumer is still there.
    pub receiving: bool,
}

impl<S> MailboxView<S> {
    /// The empty mailbox with both sides present.
    pub open spec fn fresh(capacity: nat) -> Self {
        MailboxView { queue: Seq::empty(), capacity, sending: true, receiving: true }
    }

    /// No more values are queued than the capacity allows.
    pub open spec fn bounded(self) -> bool {
        self.queue.len() <= self.capacity
    }

    pub open spec fn is_full(self) -> bool {
        self.queue.len() >= self.capacity
    }

    /// What the producer is told when it offers `value`.
    pub open spec fn sent(self, value: S) -> Sent<S> {
        if !self.sending || !self.receiving {
            Sent::Closed(value)
        } else if self.is_full() {
            Sent::Full(value)
        } else {
            Sent::Accepted
        }
    }

    /// The mailbox after the producer offered `value`.
    pub open spec fn send(self, value: S) -> Self {
        if self.sent(value) is Accepted {
            MailboxView { queue: self.queue.push(value), ..self }
        } else {
            self
        }
    }

    /// What the consumer is handed when it asks for a value.
    pub open spec fn taken(self) -> Taken<S> {
        if self.queue.len() > 0 {
            Taken::Value(self.queue.first())
        } else if self.sending {
            Taken::Empty
        } else {
            Taken::Closed
        }
    }

    /// The mailbox after the consumer asked for a value.
    pub open spec fn recv(self) -> Self {
        if self.queue.len() > 0 {
            MailboxView { queue: self.queue.drop_first(), ..self }
        } else {
            self
        }
    }

    /// The mailbox after the producer went away.
    pub open spec fn close(self) -> Self {
        MailboxView { sending: false, ..self }
    }

    /// The mailbox after the consumer went away.
    pub open spec fn disconnect(self) -> Self {
        MailboxView { receiving: false, ..self }
    }
}

/// A bounded first-in, first-out queue with one producer and one consumer.
pub struct Mailbox<S> {
    queue: VecDeque<S>,
    capacity: usize,
    sending: bool,
    receiving: bool,
}

impl<S> View for Mailbox<S> {
    type V = MailboxView<S>;

    closed spec fn view(&self) -> MailboxView<S> {
        MailboxView {
            queue: self.queue@,
            capacity: self.capacity as nat,
            sending: self.sending,
            receiving: self.receiving,
        }
    }
}

impl<S> Mailbox<S> {
    /// An empty mailbox that holds up to `capacity` values.
    pub fn new(capacity: usize) -> (mailbox: Mailbox<S>)
        ensures
            mailbox@ == MailboxView::<S>::fresh(capacity as nat),
    {
        Mailbox { queue: VecDeque::new(), capacity, sending: true, receiving: true }
    }

    /// Offers `value` to the mailbox. A full mailbox takes nothing and hands
    /// the value back, so that no value is dropped.
    pub fn try_send(&mut self, value: S) -> (outcome: Sent<S>)
        ensures
            outcome == old(self)@.sent(value),
            final(self)@ == old(self)@.send(value),
    {
        if !self.sending || !self.receiving {
            Sent::Closed(value)
        } else if self.queue.len() >= self.capacity {
            Sent::Full(value)
        } else {
            self.queue.push_back(value);
            Sent::Accepted
        }
    }

    /// Takes the oldest value out of the mailbox.
    pub fn try_recv(&mut self) -> (outcome: Taken<S>)
        ensures
            outcome == old(self)@.taken(),
            final(self)@ == old(self)@.recv(),
    {
        match self.queue.pop_front() {
            Some(value) => {
                assert(self.queue@ =~= old(self).queue@.drop_first());
                Taken::Value(value)
            },
            None => {
                if self.sending {
                    Taken::Empty
                } else {
                    Taken::Closed
                }
            },
        }
    }

    /// Records that the producer is gone. What is queued can still be taken.
    pub fn close(&mut self)
        ensures
            final(self)@ == old(self)@.close(),
    {
        self.sending = false;
    }

    /// Records that the consumer is gone.
    pub fn disconnect(&mut self)
        ensures
            final(self)@ == old(self)@.disconnect(),
    {
        self.receiving = false;
    }

    /// The number of queued values.
    pub fn len(&self) -> (len: usize)
        ensures
            len == self@.queue.len(),
    {
        self.queue.len()
    }

    /// The number of values that the mailbox holds at most.
    pub fn capacity(&self) -> (capacity: usize)
        ensures
            capacity == self@.capacity,
    {
        self.capacity
    }

    /// Whether the producer is gone.
    pub fn is_closed(&self) -> (closed: bool)
        ensures
            closed == !self@.sending,
    {
        !self.sending
    }
}

} // verus!
