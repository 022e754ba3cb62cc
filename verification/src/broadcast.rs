//! The broadcast stage of a module: a bounded ring of the latest values, read
//! by any number of subscribers, each at its own pace.

use vstd::prelude::*;
use std::collections::VecDeque;

verus! {

/// What became of a value that was published.
pub enum Published<S> {
    /// The value is in the ring, for this many subscribers to read.
    Delivered(usize),
    /// Nobody listens, or the channel is closed. The value comes back and
    /// nothing has changed: this is no failure of the one who published.
    Unobserved(S),
}

/// What a subscriber is handed when it asks for the next value.
pub enum Received<S> {
    /// The next value in the order of publication.
    Value(S),
    /// The subscriber fell behind and this many values were overwritten
    /// before it read them. It goes on with the oldest value still kept.
    Lagged(u64),
    /// The subscriber has read everything that was published so far.
    Empty,
    /// The channel is closed and the subscriber has read everything, or the
    /// subscriber is not one of this channel.
    Closed,
}

/// The number of subscribers among `cursors` that still listen.
pub open spec fn listeners(cursors: Seq<Option<nat>>) -> nat
    decreases cursors.len(),
{
    if cursors.len() == 0 {
        0
    } else {
        listeners(cursors.drop_last()) + if cursors.last() is Some {
            1nat
        } else {
            0nat
        }
    }
}

/// A count as the machine reports it: the largest `u64` stands for itself
/// and for every larger count.
pub open spec fn clamped(count: nat) -> u64 {
    if count >= u64::MAX {
        u64::MAX
    } else {
        count as u64
    }
}

/// A broadcast channel as a mathematical value.
pub struct BroadcastView<S> {
    /// Every value that was delivered, in the order of publication.
    pub history: Seq<S>,
    /// The number of latest values that are kept for reading.
    pub capacity: nat,
    /// For each subscriber, in the order of subscription: how many values of
    /// the history lie before the one it reads next; `None` once it is gone.
    pub cursors: Seq<Option<nat>>,
    /// Whether the publisher is still there.
    pub open: bool,
}

impl<S> BroadcastView<S> {
    /// The channel without history or subscribers.
    pub open spec fn fresh(capacity: nat) -> Self {
        BroadcastView { history: Seq::empty(), capacity, cursors: Seq::empty(), open: true }
    }

    /// No subscriber is ahead of what was published.
    pub open spec fn valid(self) -> bool {
        forall|sub: int|
            0 <= sub < self.cursors.len() ==> (#[trigger] self.cursors[sub] matches Some(cursor)
                ==> cursor <= self.history.len())
    }

    /// The number of subscribers that still listen.
    pub open spec fn receivers(self) -> nat {
        listeners(self.cursors)
    }

    /// Whether `sub` is a subscriber of this channel that still listens.
    pub open spec fn listening(self, sub: nat) -> bool {
        sub < self.cursors.len() && self.cursors[sub as int] is Some
    }

    /// How many values of the history have been overwritten.
    pub open spec fn oldest(self) -> nat {
        if self.history.len() > self.capacity {
            (self.history.len() - self.capacity) as nat
        } else {
            0
        }
    }

    /// What the publisher is told when it publishes `value`.
    pub open spec fn published(self, value: S) -> Published<S> {
        if self.open && self.receivers() > 0 {
            Published::Delivered(self.receivers() as usize)
        } else {
            Published::Unobserved(value)
        }
    }

    /// The channel after `value` was published.
    pub open spec fn publish(self, value: S) -> Self {
        if self.open && self.receivers() > 0 {
            BroadcastView { history: self.history.push(value), ..self }
        } else {
            self
        }
    }

    /// The channel after one more subscriber joined. Its number is the
    /// number of subscriptions before it, and it starts at the present end
    /// of the history.
    pub open spec fn subscribe(self) -> Self {
        BroadcastView { cursors: self.cursors.push(Some(self.history.len())), ..self }
    }

    /// The channel after subscriber `sub` went away.
    pub open spec fn unsubscribe(self, sub: nat) -> Self {
        if sub < self.cursors.len() {
            BroadcastView { cursors: self.cursors.update(sub as int, None), ..self }
        } else {
            self
        }
    }

    /// What subscriber `sub` is handed when it asks for its next value.
    pub open spec fn received(self, sub: nat) -> Received<S> {
        if !self.listening(sub) {
            Received::Closed
        } else {
            let cursor = self.cursors[sub as int]->0;
            if cursor < self.oldest() {
                Received::Lagged(clamped((self.oldest() - cursor) as nat))
            } else if cursor < self.history.len() {
                Received::Value(self.history[cursor as int])
            } else if self.open {
                Received::Empty
            } else {
                Received::Closed
            }
        }
    }

    /// The channel after subscriber `sub` asked for its next value.
    pub open spec fn recv(self, sub: nat) -> Self {
        if !self.listening(sub) {
            self
        } else {
            let cursor = self.cursors[sub as int]->0;
            if cursor < self.oldest() {
                BroadcastView {
                    cursors: self.cursors.update(sub as int, Some(self.oldest())),
                    ..self
                }
            } else if cursor < self.history.len() {
                BroadcastView {
                    cursors: self.cursors.update(sub as int, Some(cursor + 1)),
                    ..self
                }
            } else {
                self
            }
        }
    }

    /// The channel after the publisher went away.
    pub open spec fn close(self) -> Self {
        BroadcastView { open: false, ..self }
    }
}

/// Where one subscriber stands, counted from the end of the ring.
#[derive(Clone, Copy)]
struct Reader {
    listening: bool,
    /// How many kept values it has yet to read.
    pending: usize,
    /// How many values were overwritten before it read them.
    missed: u64,
}

/// A bounded broadcast channel with one publisher. A slow subscriber never
/// holds the publisher back: it loses the oldest values instead.
pub struct Broadcast<S> {
    kept: VecDeque<S>,
    capacity: usize,
    readers: Vec<Reader>,
    open: bool,
    history: Ghost<Seq<S>>,
    cursors: Ghost<Seq<Option<nat>>>,
}

impl<S> View for Broadcast<S> {
    type V = BroadcastView<S>;

    closed spec fn view(&self) -> BroadcastView<S> {
        BroadcastView {
            history: self.history@,
            capacity: self.capacity as nat,
            cursors: self.cursors@,
            open: self.open,
        }
    }
}

impl<S: Copy> Broadcast<S> {
    /// Whether reader `sub` stands where cursor `cursor` says, in a channel
    /// that delivered `published` values and keeps `kept` of them.
    spec fn agrees(reader: Reader, cursor: Option<nat>, published: nat, kept: nat) -> bool {
        match cursor {
            None => !reader.listening,
            Some(at) => {
                &&& reader.listening
                &&& at <= published
                &&& reader.pending == if published - at <= kept {
                    (published - at) as nat
                } else {
                    kept
                }
                &&& reader.missed == clamped((published - at - reader.pending) as nat)
            },
        }
    }

    /// The ring and the readers hold what the history and the cursors say.
    pub closed spec fn wf(&self) -> bool {
        &&& self.kept@.len() == if self.history@.len() <= self.capacity {
            self.history@.len()
        } else {
            self.capacity as nat
        }
        &&& self.kept@ == self.history@.subrange(
            self.history@.len() - self.kept@.len(),
            self.history@.len() as int,
        )
        &&& self.readers@.len() == self.cursors@.len()
        &&& forall|sub: int|
            0 <= sub < self.readers@.len() ==> Self::agrees(
                #[trigger] self.readers@[sub],
                self.cursors@[sub],
                self.history@.len(),
                self.kept@.len(),
            )
    }

    /// A well-formed channel has a valid view.
    pub proof fn lemma_valid(&self)
        requires
            self.wf(),
        ensures
            self@.valid(),
    {
        assert forall|sub: int| 0 <= sub < self@.cursors.len() implies (
        #[trigger] self@.cursors[sub] matches Some(cursor) ==> cursor <= self@.history.len()) by {
            assert(Self::agrees(
                self.readers@[sub],
                self.cursors@[sub],
                self.history@.len(),
                self.kept@.len(),
            ));
        }
    }

    /// A channel that keeps the latest `capacity` values, without
    /// subscribers yet.
    pub fn new(capacity: usize) -> (channel: Broadcast<S>)
        ensures
            channel.wf(),
            channel@ == BroadcastView::<S>::fresh(capacity as nat),
    {
        let channel = Broadcast {
            kept: VecDeque::new(),
            capacity,
            readers: Vec::new(),
            open: true,
            history: Ghost(Seq::empty()),
            cursors: Ghost(Seq::empty()),
        };
        assert(channel.kept@ =~= channel.history@.subrange(0, 0));
        channel
    }

    /// The number of subscribers that still listen.
    pub fn receiver_count(&self) -> (count: usize)
        requires
            self.wf(),
        ensures
            count == self@.receivers(),
    {
        let mut count: usize = 0;
        let mut i: usize = 0;
        while i < self.readers.len()
            invariant
                self.wf(),
                i <= self.readers.len(),
                count <= i,
                count == listeners(self.cursors@.take(i as int)),
            decreases self.readers.len() - i,
        {
            proof {
                assert(Self::agrees(
                    self.readers@[i as int],
                    self.cursors@[i as int],
                    self.history@.len(),
                    self.kept@.len(),
                ));
                assert(self.cursors@.take(i + 1).drop_last() =~= self.cursors@.take(i as int));
            }
            if self.readers[i].listening {
                count = count + 1;
            }
            i = i + 1;
        }
        assert(self.cursors@.take(i as int) =~= self.cursors@);
        count
    }

    /// Publishes `value` to the subscribers that listen. Without any, the
    /// value comes back and the channel is as it was.
    pub fn publish(&mut self, value: S) -> (outcome: Published<S>)
        requires
            old(self).wf(),
        ensures
            final(self).wf(),
            outcome == old(self)@.published(value),
            final(self)@ == old(self)@.publish(value),
    {
        let count = self.receiver_count();
        if !self.open || count == 0 {
            return Published::Unobserved(value);
        }
        if self.capacity > 0 {
            if self.kept.len() >= self.capacity {
                let _ = self.kept.pop_front();
            }
            self.kept.push_back(value);
        }
        self.history = Ghost(self.history@.push(value));
        proof {
            assert(self.kept@ =~= self.history@.subrange(
                self.history@.len() - self.kept@.len(),
                self.history@.len() as int,
            ));
        }
        let kept = self.kept.len();
        let ghost before = old(self).kept@.len();
        let ghost published = self.history@.len();
        let mut i: usize = 0;
        while i < self.readers.len()
            invariant
                i <= self.readers.len(),
                self.readers@.len() == self.cursors@.len(),
                self.cursors@ == old(self).cursors@,
                self.history@ == old(self).history@.push(value),
                self.kept@ == self.history@.subrange(
                    self.history@.len() - self.kept@.len(),
                    self.history@.len() as int,
                ),
                self.capacity == old(self).capacity,
                self.open == old(self).open,
                kept == self.kept@.len(),
                published == self.history@.len(),
                kept == if published <= self.capacity {
                    published
                } else {
                    self.capacity as nat
                },
                before == if published - 1 <= self.capacity {
                    (published - 1) as nat
                } else {
                    self.capacity as nat
                },
                forall|sub: int|
                    0 <= sub < i ==> Self::agrees(
                        #[trigger] self.readers@[sub],
                        self.cursors@[sub],
                        published,
                        kept as nat,
                    ),
                forall|sub: int|
                    i <= sub < self.readers@.len() ==> Self::agrees(
                        #[trigger] self.readers@[sub],
                        self.cursors@[sub],
                        (published - 1) as nat,
                        before,
                    ),
            decreases self.readers.len() - i,
        {
            let reader = self.readers[i];
            assert(Self::agrees(
                self.readers@[i as int],
                self.cursors@[i as int],
                (published - 1) as nat,
                before,
            ));
            if reader.listening {
                let moved = if reader.pending < kept {
                    Reader { listening: true, pending: reader.pending + 1, missed: reader.missed }
                } else if reader.missed < u64::MAX {
                    Reader { listening: true, pending: reader.pending, missed: reader.missed + 1 }
                } else {
                    reader
                };
                self.readers.set(i, moved);
            }
            i = i + 1;
        }
        Published::Delivered(count)
    }

    /// Adds a subscriber and returns its number. It will see the values
    /// that are published from now on, and none of the earlier ones.
    pub fn subscribe(&mut self) -> (sub: usize)
        requires
            old(self).wf(),
        ensures
            final(self).wf(),
            sub == old(self)@.cursors.len(),
            final(self)@ == old(self)@.subscribe(),
    {
        let sub = self.readers.len();
        self.readers.push(Reader { listening: true, pending: 0, missed: 0 });
        self.cursors = Ghost(self.cursors@.push(Some(self.history@.len())));
        sub
    }

    /// Removes subscriber `sub`, if there is one of that number.
    pub fn unsubscribe(&mut self, sub: usize)
        requires
            old(self).wf(),
        ensures
            final(self).wf(),
            final(self)@ == old(self)@.unsubscribe(sub as nat),
    {
        if sub < self.readers.len() {
            self.readers.set(sub, Reader { listening: false, pending: 0, missed: 0 });
            self.cursors = Ghost(self.cursors@.update(sub as int, None));
        }
    }

    /// Hands subscriber `sub` its next value, or says why there is none.
    pub fn try_recv(&mut self, sub: usize) -> (outcome: Received<S>)
        requires
            old(self).wf(),
        ensures
            final(self).wf(),
            outcome == old(self)@.received(sub as nat),
            final(self)@ == old(self)@.recv(sub as nat),
    {
        if sub >= self.readers.len() {
            return Received::Closed;
        }
        let reader = self.readers[sub];
        assert(Self::agrees(
            self.readers@[sub as int],
            self.cursors@[sub as int],
            self.history@.len(),
            self.kept@.len(),
        ));
        if !reader.listening {
            return Received::Closed;
        }
        let ghost cursor = self.cursors@[sub as int]->0;
        if reader.missed > 0 {
            self.readers.set(sub, Reader { listening: true, pending: reader.pending, missed: 0 });
            self.cursors = Ghost(self.cursors@.update(sub as int, Some(self@.oldest())));
            Received::Lagged(reader.missed)
        } else if reader.pending > 0 {
            let value = self.kept[self.kept.len() - reader.pending];
            self.readers.set(
                sub,
                Reader { listening: true, pending: (reader.pending - 1) as usize, missed: 0 },
            );
            self.cursors = Ghost(self.cursors@.update(sub as int, Some(cursor + 1)));
            Received::Value(value)
        } else if self.open {
            Received::Empty
        } else {
            Received::Closed
        }
    }

    /// Records that the publisher is gone. Subscribers still read what is
    /// kept, and are then told that the channel is closed.
    pub fn close(&mut self)
        requires
            old(self).wf(),
        ensures
            final(self).wf(),
            final(self)@ == old(self)@.close(),
    {
        self.open = false;
    }
}

} // verus!
