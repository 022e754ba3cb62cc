//! What holds of the pipeline whatever its tasks do, and in whatever order
//! they take their turns.

use vstd::prelude::*;
use crate::bar::{BarView, loaded};
use crate::broadcast::{BroadcastView, Received, listeners};
use crate::element::ElementView;
use crate::mailbox::{MailboxView, Sent, Taken};
use crate::battery::{Reading, State};
use crate::modules::battery::{battery_class, battery_classes, battery_index, battery_showing, lemma_battery_classes};
use crate::modules::power::{
    lemma_marked, lemma_state_classes, power_showing, state_class, state_classes, state_index,
};
use crate::modules::{ContextView, Error, Events, Modules, Relayed, Step};
use crate::rbar::RBar;

verus! {

/// One thing that happens to a broadcast channel.
pub enum Op<S> {
    /// The publisher publishes a value.
    Publish(S),
    /// One more subscriber joins.
    Subscribe,
    /// The subscriber of that number goes away.
    Unsubscribe(nat),
    /// The subscriber of that number asks for its next value.
    Recv(nat),
    /// The publisher goes away.
    Close,
}

impl<S> BroadcastView<S> {
    /// The channel after `op`.
    pub open spec fn step(self, op: Op<S>) -> Self {
        match op {
            Op::Publish(value) => self.publish(value),
            Op::Subscribe => self.subscribe(),
            Op::Unsubscribe(sub) => self.unsubscribe(sub),
            Op::Recv(sub) => self.recv(sub),
            Op::Close => self.close(),
        }
    }

    /// The channel after `ops`, one after the other.
    pub open spec fn run(self, ops: Seq<Op<S>>) -> Self
        decreases ops.len(),
    {
        if ops.len() == 0 {
            self
        } else {
            self.run(ops.drop_last()).step(ops.last())
        }
    }

    /// Whether the last of `ops` hands subscriber `sub` a value.
    pub open spec fn hands(self, ops: Seq<Op<S>>, sub: nat) -> bool
        recommends
            ops.len() > 0,
    {
        &&& ops.last() matches Op::Recv(asking)
        &&& asking == sub
        &&& self.run(ops.drop_last()).received(sub) is Value
    }

    /// The values that subscriber `sub` is handed in the course of `ops`,
    /// in the order in which it gets them.
    pub open spec fn seen(self, ops: Seq<Op<S>>, sub: nat) -> Seq<S>
        decreases ops.len(),
    {
        if ops.len() == 0 {
            Seq::empty()
        } else if self.hands(ops, sub) {
            self.seen(ops.drop_last(), sub).push(
                self.run(ops.drop_last()).received(sub)->Value_0,
            )
        } else {
            self.seen(ops.drop_last(), sub)
        }
    }

    /// For each value that subscriber `sub` is handed in the course of
    /// `ops`: its place in the history.
    pub open spec fn seen_at(self, ops: Seq<Op<S>>, sub: nat) -> Seq<nat>
        decreases ops.len(),
    {
        if ops.len() == 0 {
            Seq::empty()
        } else if self.hands(ops, sub) {
            self.seen_at(ops.drop_last(), sub).push(
                self.run(ops.drop_last()).cursors[sub as int]->0,
            )
        } else {
            self.seen_at(ops.drop_last(), sub)
        }
    }

    /// Whether subscriber `sub` is told in the course of `ops` that it fell
    /// behind.
    pub open spec fn lagged(self, ops: Seq<Op<S>>, sub: nat) -> bool
        decreases ops.len(),
    {
        if ops.len() == 0 {
            false
        } else {
            self.lagged(ops.drop_last(), sub) || (ops.last() matches Op::Recv(asking) && asking
                == sub && self.run(ops.drop_last()).received(sub) is Lagged)
        }
    }

    /// What links a channel, the things that happened to it, and what one
    /// of its subscribers was handed on the way.
    pub open spec fn follows(self, ops: Seq<Op<S>>, sub: nat) -> bool {
        let end = self.run(ops);
        let at = self.seen_at(ops, sub);
        let seen = self.seen(ops, sub);
        let first = self.cursors[sub as int]->0;
        &&& end.valid()
        &&& end.capacity == self.capacity
        &&& self.history.is_prefix_of(end.history)
        &&& sub < end.cursors.len()
        &&& self.cursors.len() <= end.cursors.len()
        &&& end.listening(sub) ==> first <= end.cursors[sub as int]->0
        &&& at.len() == seen.len()
        &&& forall|i: int|
            0 <= i < at.len() ==> {
                &&& first <= #[trigger] at[i] < end.history.len()
                &&& seen[i] == end.history[at[i] as int]
                &&& end.listening(sub) ==> at[i] < end.cursors[sub as int]->0
            }
        &&& forall|i: int, j: int| 0 <= i < j < at.len() ==> at[i] < at[j]
        &&& (end.listening(sub) && !self.lagged(ops, sub)) ==> at == Seq::new(
            (end.cursors[sub as int]->0 - first) as nat,
            |i: int| (first + i) as nat,
        )
    }
}

/// Whatever happens to a valid channel, it stays valid, its history only
/// grows, and a subscriber is handed values of the history at places that
/// only go up from where it started; if it is never told that it fell
/// behind, it is handed every value from there on.
pub proof fn lemma_run<S>(start: BroadcastView<S>, ops: Seq<Op<S>>, sub: nat)
    requires
        start.valid(),
        start.listening(sub),
    ensures
        start.follows(ops, sub),
    decreases ops.len(),
{
    let first = start.cursors[sub as int]->0;
    if ops.len() == 0 {
        assert(start.seen_at(ops, sub) =~= Seq::new(0, |i: int| (first + i) as nat));
    } else {
        let front = ops.drop_last();
        lemma_run(start, front, sub);
        let before = start.run(front);
        let end = start.run(ops);
        let at_before = start.seen_at(front, sub);
        let at = start.seen_at(ops, sub);
        let seen = start.seen(ops, sub);
        assert(end == before.step(ops.last()));
        assert(before.valid());
        match ops.last() {
            Op::Publish(value) => {
                assert(at == at_before);
                assert(end.cursors == before.cursors);
                assert(forall|i: int|
                    0 <= i < before.history.len() ==> end.history[i] == before.history[i]);
            },
            Op::Subscribe => {
                assert(at == at_before);
                assert(end.cursors[sub as int] == before.cursors[sub as int]);
                assert(end.valid());
            },
            Op::Unsubscribe(leaving) => {
                assert(at == at_before);
                assert(end.valid());
            },
            Op::Recv(asking) => {
                assert(end.history == before.history);
                assert(end.valid()) by {
                    assert forall|other: int| 0 <= other < end.cursors.len() implies (
                    #[trigger] end.cursors[other] matches Some(cursor) ==> cursor
                        <= end.history.len()) by {
                        assert(before.cursors[other] matches Some(cursor) ==> cursor
                            <= before.history.len());
                    }
                }
                if asking == sub && before.listening(sub) {
                    let cursor = before.cursors[sub as int]->0;
                    if cursor < before.oldest() {
                        assert(at == at_before);
                        assert(start.lagged(ops, sub));
                    } else if cursor < before.history.len() {
                        assert(start.hands(ops, sub));
                        assert(at == at_before.push(cursor));
                        assert(seen == start.seen(front, sub).push(before.history[cursor as int]));
                        assert(end.cursors[sub as int] == Some(cursor + 1));
                        if !start.lagged(ops, sub) {
                            assert(!start.lagged(front, sub));
                            assert(at =~= Seq::new(
                                (cursor + 1 - first) as nat,
                                |i: int| (first + i) as nat,
                            ));
                        }
                    } else {
                        assert(at == at_before);
                        assert(end == before);
                    }
                } else {
                    assert(at == at_before);
                    if asking != sub {
                        assert(end.cursors[sub as int] == before.cursors[sub as int]);
                    }
                }
            },
            Op::Close => {
                assert(at == at_before);
            },
        }
    }
}

/// Fan-out. Two subscribers that joined at the same point of the history
/// and were never told that they fell behind are handed the same values in
/// the same order: each has been handed every value from that point up to
/// where it stands, so that the one that asked less often has a beginning
/// of what the other has, and both have the same once they stand at the
/// same place.
pub proof fn law_fan_out<S>(start: BroadcastView<S>, ops: Seq<Op<S>>, a: nat, b: nat)
    requires
        start.valid(),
        start.listening(a),
        start.listening(b),
        start.cursors[a as int] == start.cursors[b as int],
        start.run(ops).listening(a),
        start.run(ops).listening(b),
        !start.lagged(ops, a),
        !start.lagged(ops, b),
    ensures
        ({
            let end = start.run(ops);
            let first = start.cursors[a as int]->0 as int;
            let reach_a = end.cursors[a as int]->0 as int;
            let reach_b = end.cursors[b as int]->0 as int;
            &&& first <= reach_a <= end.history.len()
            &&& first <= reach_b <= end.history.len()
            &&& start.seen(ops, a) == end.history.subrange(first, reach_a)
            &&& start.seen(ops, b) == end.history.subrange(first, reach_b)
            &&& reach_a <= reach_b ==> start.seen(ops, a) == start.seen(ops, b).take(
                reach_a - first,
            )
            &&& reach_a == reach_b ==> start.seen(ops, a) == start.seen(ops, b)
        }),
{
    lemma_run(start, ops, a);
    lemma_run(start, ops, b);
    let end = start.run(ops);
    let first = start.cursors[a as int]->0 as int;
    let reach_a = end.cursors[a as int]->0 as int;
    let reach_b = end.cursors[b as int]->0 as int;
    assert(end.cursors[a as int] matches Some(cursor) ==> cursor <= end.history.len());
    assert(end.cursors[b as int] matches Some(cursor) ==> cursor <= end.history.len());
    lemma_every_value(start, ops, a);
    lemma_every_value(start, ops, b);
    if reach_a <= reach_b {
        assert(end.history.subrange(first, reach_a) =~= end.history.subrange(first, reach_b).take(
            reach_a - first,
        ));
    }
}

/// Fan-out from the start. Two subscribers that join a new channel before
/// anything is published, and are never told that they fell behind, have
/// each been handed the history from its beginning up to where they stand:
/// the same values in the same order.
pub proof fn law_fan_out_from_start<S>(capacity: nat, ops: Seq<Op<S>>)
    requires
        BroadcastView::<S>::fresh(capacity).subscribe().subscribe().run(ops).listening(0),
        BroadcastView::<S>::fresh(capacity).subscribe().subscribe().run(ops).listening(1),
        !BroadcastView::<S>::fresh(capacity).subscribe().subscribe().lagged(ops, 0),
        !BroadcastView::<S>::fresh(capacity).subscribe().subscribe().lagged(ops, 1),
    ensures
        ({
            let start = BroadcastView::<S>::fresh(capacity).subscribe().subscribe();
            let end = start.run(ops);
            let first = end.cursors[0]->0 as int;
            let second = end.cursors[1]->0 as int;
            &&& 0 <= first <= end.history.len()
            &&& 0 <= second <= end.history.len()
            &&& start.seen(ops, 0) == end.history.take(first)
            &&& start.seen(ops, 1) == end.history.take(second)
            &&& first == second ==> start.seen(ops, 0) == start.seen(ops, 1)
        }),
{
    let start = BroadcastView::<S>::fresh(capacity).subscribe().subscribe();
    assert(start.cursors =~= seq![Some(0nat), Some(0nat)]);
    law_fan_out(start, ops, 0, 1);
}

/// A subscriber that is never told that it fell behind has been handed
/// every value from where it started up to where it stands.
proof fn lemma_every_value<S>(start: BroadcastView<S>, ops: Seq<Op<S>>, sub: nat)
    requires
        start.valid(),
        start.listening(sub),
        start.run(ops).listening(sub),
        !start.lagged(ops, sub),
        start.follows(ops, sub),
    ensures
        start.seen(ops, sub) == start.run(ops).history.subrange(
            start.cursors[sub as int]->0 as int,
            start.run(ops).cursors[sub as int]->0 as int,
        ),
{
    let end = start.run(ops);
    let at = start.seen_at(ops, sub);
    let seen = start.seen(ops, sub);
    let first = start.cursors[sub as int]->0 as int;
    let reach = end.cursors[sub as int]->0 as int;
    assert(end.cursors[sub as int] matches Some(cursor) ==> cursor <= end.history.len());
    assert forall|i: int| 0 <= i < seen.len() implies seen[i] == end.history.subrange(
        first,
        reach,
    )[i] by {
        assert(at[i] == first + i);
    }
    assert(seen =~= end.history.subrange(first, reach));
}

/// Late subscription, and order. A subscriber that joins when some values
/// have been published is handed none of them: whatever happens afterwards,
/// each value that it is handed was published after it joined. It is handed
/// them in the order of publication, and none of them twice.
pub proof fn law_late_subscription<S>(before: BroadcastView<S>, ops: Seq<Op<S>>)
    requires
        before.valid(),
    ensures
        ({
            let start = before.subscribe();
            let sub = before.cursors.len();
            let end = start.run(ops);
            let at = start.seen_at(ops, sub);
            let seen = start.seen(ops, sub);
            &&& before.history.is_prefix_of(end.history)
            &&& at.len() == seen.len()
            &&& forall|i: int|
                0 <= i < seen.len() ==> before.history.len() <= #[trigger] at[i]
                    < end.history.len() && seen[i] == end.history[at[i] as int]
            &&& forall|i: int, j: int| 0 <= i < j < at.len() ==> at[i] < at[j]
        }),
{
    let start = before.subscribe();
    let sub = before.cursors.len();
    assert(start.valid()) by {
        assert forall|other: int| 0 <= other < start.cursors.len() implies (
        #[trigger] start.cursors[other] matches Some(cursor) ==> cursor <= start.history.len()) by {
            if other < before.cursors.len() {
                assert(before.cursors[other] matches Some(cursor) ==> cursor
                    <= before.history.len());
            }
        }
    }
    lemma_run(start, ops, sub);
}

/// A subscriber that listens is counted among the listeners.
pub proof fn lemma_listener_counts(cursors: Seq<Option<nat>>, sub: int)
    requires
        0 <= sub < cursors.len(),
        cursors[sub] is Some,
    ensures
        listeners(cursors) > 0,
    decreases cursors.len(),
{
    if sub < cursors.len() - 1 {
        assert(cursors.drop_last()[sub] == cursors[sub]);
        lemma_listener_counts(cursors.drop_last(), sub);
    }
}

/// Zero-subscriber tolerance. A relay that takes a value from the mailbox
/// while nobody listens does not end and reports no failure: the value
/// leaves the mailbox, and the channel is as it was. A subscriber that
/// joins afterwards finds nothing to read, so that what it is handed later
/// was published after it joined.
pub proof fn law_zero_subscribers<S>(context: ContextView<S>, value: S)
    requires
        context.updates.receivers() == 0,
        context.mailbox.taken() == Taken::Value(Events::Update(value)),
    ensures
        context.relayed() == Relayed::Unobserved,
        context.relay().updates == context.updates,
        context.relay().mailbox.queue == context.mailbox.queue.drop_first(),
        context.relay().mailbox.sending == context.mailbox.sending,
        ({
            let joined = context.relay().subscribe();
            let sub = context.updates.cursors.len();
            &&& joined.updates.listening(sub)
            &&& joined.updates.history == context.updates.history
            &&& joined.updates.cursors[sub as int] == Some(context.updates.history.len())
            &&& joined.updates.received(sub) == if context.updates.open {
                Received::<S>::Empty
            } else {
                Received::<S>::Closed
            }
        }),
{
}

impl<S> MailboxView<S> {
    /// The mailbox after the producer offered each of `values` in turn.
    pub open spec fn send_all(self, values: Seq<S>) -> Self
        decreases values.len(),
    {
        if values.len() == 0 {
            self
        } else {
            self.send_all(values.drop_last()).send(values.last())
        }
    }
}

/// An open mailbox takes values as long as it has room, and keeps them in
/// their order.
pub proof fn lemma_send_all<S>(mailbox: MailboxView<S>, values: Seq<S>)
    requires
        mailbox.sending,
        mailbox.receiving,
        mailbox.queue.len() + values.len() <= mailbox.capacity,
    ensures
        mailbox.send_all(values) == (MailboxView {
            queue: mailbox.queue + values,
            ..mailbox
        }),
    decreases values.len(),
{
    if values.len() == 0 {
        assert(mailbox.queue + values =~= mailbox.queue);
    } else {
        lemma_send_all(mailbox, values.drop_last());
        assert((mailbox.queue + values.drop_last()).push(values.last()) =~= mailbox.queue + values);
    }
}

/// Backpressure. An empty mailbox of capacity C takes C values. While the
/// relay takes none of them out, the producer that offers one more gets it
/// back and is told to wait: the value is not dropped, no error is raised,
/// and the mailbox is as it was. As soon as the relay has taken one value,
/// the same value is accepted, behind the others.
pub proof fn law_backpressure<S>(context: ContextView<S>, values: Seq<S>, extra: S, interval: u64)
    requires
        context.mailbox.queue.len() == 0,
        context.mailbox.sending,
        context.mailbox.receiving,
        values.len() == context.mailbox.capacity,
    ensures
        ({
            let events = values.map_values(|value: S| Events::Update(value));
            let full = ContextView { mailbox: context.mailbox.send_all(events), ..context };
            &&& full.mailbox.queue == events
            &&& full.mailbox.sent(Events::Update(extra)) == Sent::Full(Events::Update(extra))
            &&& full.produced(interval, Ok(extra)) == Step::Wait(extra)
            &&& full.produce(interval, Ok(extra)) == full
            &&& values.len() > 0 ==> {
                &&& full.relay().mailbox.queue == events.drop_first()
                &&& full.relay().produced(interval, Ok(extra)) == Step::<S>::Sleep(interval)
                &&& full.relay().produce(interval, Ok(extra)).mailbox.queue
                    == events.drop_first().push(Events::Update(extra))
            }
        }),
{
    let events = values.map_values(|value: S| Events::Update(value));
    lemma_send_all(context.mailbox, events);
    assert(context.mailbox.queue + events =~= events);
}

/// One thing that happens in the pipeline of a module.
pub enum Turn<S> {
    /// The task of the producer takes a turn with what was read for it.
    Produce(Result<S, Error>),
    /// The relay takes a turn.
    Relay,
    /// The subscriber of that number asks for its next value.
    Recv(nat),
    /// One more subscriber joins.
    Subscribe,
}

/// The values that `events` carry.
pub open spec fn values_of<S>(events: Seq<Events<S>>) -> Seq<S> {
    events.map_values(|event: Events<S>| event->Update_0)
}

impl<S> ContextView<S> {
    /// The pipeline after `turn`.
    pub open spec fn turn(self, interval: u64, turn: Turn<S>) -> Self {
        match turn {
            Turn::Produce(read) => self.produce(interval, read),
            Turn::Relay => self.relay(),
            Turn::Recv(sub) => self.recv(sub),
            Turn::Subscribe => self.subscribe(),
        }
    }

    /// The pipeline after `turns`, one after the other.
    pub open spec fn turns(self, interval: u64, turns: Seq<Turn<S>>) -> Self
        decreases turns.len(),
    {
        if turns.len() == 0 {
            self
        } else {
            self.turns(interval, turns.drop_last()).turn(interval, turns.last())
        }
    }

    /// The values that the mailbox accepts in the course of `turns`, in the
    /// order in which the producer offers them.
    pub open spec fn accepted(self, interval: u64, turns: Seq<Turn<S>>) -> Seq<S>
        decreases turns.len(),
    {
        if turns.len() == 0 {
            Seq::empty()
        } else {
            let earlier = self.accepted(interval, turns.drop_last());
            let before = self.turns(interval, turns.drop_last());
            match turns.last() {
                Turn::Produce(Ok(value)) => if before.mailbox.sent(Events::Update(value))
                    is Accepted {
                    earlier.push(value)
                } else {
                    earlier
                },
                _ => earlier,
            }
        }
    }

    /// What happens to the broadcast channel in the course of `turns`.
    pub open spec fn channel_ops(self, interval: u64, turns: Seq<Turn<S>>) -> Seq<Op<S>>
        decreases turns.len(),
    {
        if turns.len() == 0 {
            Seq::empty()
        } else {
            let earlier = self.channel_ops(interval, turns.drop_last());
            let before = self.turns(interval, turns.drop_last());
            match turns.last() {
                Turn::Produce(_) => earlier,
                Turn::Relay => match before.mailbox.taken() {
                    Taken::Value(Events::Update(value)) => earlier.push(Op::Publish(value)),
                    Taken::Empty => earlier,
                    Taken::Closed => earlier.push(Op::Close),
                },
                Turn::Recv(sub) => earlier.push(Op::Recv(sub)),
                Turn::Subscribe => earlier.push(Op::Subscribe),
            }
        }
    }

    /// Everything that is on its way through the pipeline or has come
    /// through it: what was published, and behind it what waits in the
    /// mailbox.
    pub open spec fn stream(self) -> Seq<S> {
        self.updates.history + values_of(self.mailbox.queue)
    }
}

/// The broadcast channel of a pipeline is what the turns of the pipeline
/// made of it.
pub proof fn lemma_channel_ops<S>(start: ContextView<S>, interval: u64, turns: Seq<Turn<S>>)
    ensures
        start.turns(interval, turns).updates == start.updates.run(
            start.channel_ops(interval, turns),
        ),
    decreases turns.len(),
{
    if turns.len() > 0 {
        let front = turns.drop_last();
        lemma_channel_ops(start, interval, front);
        let earlier = start.channel_ops(interval, front);
        let ops = start.channel_ops(interval, turns);
        if ops.len() == earlier.len() + 1 {
            assert(ops.drop_last() =~= earlier);
        }
    }
}

/// Nothing is lost and nothing changes its place. While a subscriber
/// listens, the values that the mailbox accepts come out of the relay in
/// the order in which they went in: what was published, followed by what
/// waits in the mailbox, is what was there at first, followed by what the
/// mailbox has accepted since.
pub proof fn law_pipeline_keeps_order<S>(
    start: ContextView<S>,
    interval: u64,
    turns: Seq<Turn<S>>,
    sub: nat,
)
    requires
        start.updates.valid(),
        start.updates.open,
        start.updates.listening(sub),
    ensures
        ({
            let end = start.turns(interval, turns);
            &&& end.updates.valid()
            &&& end.updates.listening(sub)
            &&& end.updates.open || (end.mailbox.queue.len() == 0 && !end.mailbox.sending)
            &&& end.stream() == start.stream() + start.accepted(interval, turns)
        }),
    decreases turns.len(),
{
    if turns.len() == 0 {
        assert(start.stream() + start.accepted(interval, turns) =~= start.stream());
    } else {
        let front = turns.drop_last();
        law_pipeline_keeps_order(start, interval, front, sub);
        let before = start.turns(interval, front);
        let end = start.turns(interval, turns);
        let earlier = start.accepted(interval, front);
        assert(before.stream() == start.stream() + earlier);
        match turns.last() {
            Turn::Produce(read) => {
                match read {
                    Ok(value) => {
                        if before.mailbox.sent(Events::Update(value)) is Accepted {
                            assert(values_of(end.mailbox.queue) =~= values_of(
                                before.mailbox.queue,
                            ).push(value));
                            assert(end.stream() =~= before.stream().push(value));
                            assert(start.stream() + earlier.push(value) =~= (start.stream()
                                + earlier).push(value));
                        } else {
                            assert(end.mailbox.queue == before.mailbox.queue);
                        }
                    },
                    Err(_) => {
                        assert(end.mailbox.queue == before.mailbox.queue);
                    },
                }
            },
            Turn::Relay => {
                match before.mailbox.taken() {
                    Taken::Value(Events::Update(value)) => {
                        lemma_listener_counts(before.updates.cursors, sub as int);
                        assert(before.updates.open);
                        assert(end.updates.history == before.updates.history.push(value));
                        assert(values_of(before.mailbox.queue) =~= seq![value] + values_of(
                            end.mailbox.queue,
                        ));
                        assert(end.stream() =~= before.stream());
                    },
                    Taken::Empty => {},
                    Taken::Closed => {},
                }
            },
            Turn::Recv(asking) => {
                assert(end.updates.valid()) by {
                    assert forall|other: int| 0 <= other < end.updates.cursors.len() implies (
                    #[trigger] end.updates.cursors[other] matches Some(cursor) ==> cursor
                        <= end.updates.history.len()) by {
                        assert(before.updates.cursors[other] matches Some(cursor) ==> cursor
                            <= before.updates.history.len());
                    }
                }
            },
            Turn::Subscribe => {
                assert(end.updates.valid()) by {
                    assert forall|other: int| 0 <= other < end.updates.cursors.len() implies (
                    #[trigger] end.updates.cursors[other] matches Some(cursor) ==> cursor
                        <= end.updates.history.len()) by {
                        if other < before.updates.cursors.len() {
                            assert(before.updates.cursors[other] matches Some(cursor) ==> cursor
                                <= before.updates.history.len());
                        }
                    }
                }
            },
        }
    }
}

/// Order from end to end. Whatever the tasks of a module do and in whatever
/// order they take their turns, a subscriber is handed values that the
/// producer sent, in the order in which it sent them, and none of them
/// twice. When it falls behind it misses values; it is never handed one out
/// of its turn.
pub proof fn law_end_to_end_order<S>(
    start: ContextView<S>,
    interval: u64,
    turns: Seq<Turn<S>>,
    sub: nat,
)
    requires
        start.updates.valid(),
        start.updates.open,
        start.updates.listening(sub),
    ensures
        ({
            let sent = start.stream() + start.accepted(interval, turns);
            let ops = start.channel_ops(interval, turns);
            let seen = start.updates.seen(ops, sub);
            let at = start.updates.seen_at(ops, sub);
            &&& at.len() == seen.len()
            &&& forall|i: int|
                0 <= i < seen.len() ==> start.updates.cursors[sub as int]->0 <= #[trigger] at[i]
                    < sent.len() && seen[i] == sent[at[i] as int]
            &&& forall|i: int, j: int| 0 <= i < j < at.len() ==> at[i] < at[j]
        }),
{
    let ops = start.channel_ops(interval, turns);
    lemma_channel_ops(start, interval, turns);
    law_pipeline_keeps_order(start, interval, turns, sub);
    lemma_run(start.updates, ops, sub);
    let end = start.turns(interval, turns);
    let sent = start.stream() + start.accepted(interval, turns);
    assert(end.stream() == sent);
    assert(forall|i: int| 0 <= i < end.updates.history.len() ==> end.stream()[i]
        == end.updates.history[i]);
}

/// Isolation. A module that cannot be registered leaves no trace in the
/// bar: the bar is what it would be without that module in the list.
pub proof fn lemma_failed_module_leaves_no_trace(
    bar: BarView,
    modules: Seq<Modules>,
    failed: int,
    host: RBar,
)
    requires
        0 <= failed < modules.len(),
        modules[failed].outcome(host) is Err,
    ensures
        loaded(bar, modules, host) == loaded(bar, modules.remove(failed), host),
    decreases modules.len(),
{
    if failed == modules.len() - 1 {
        assert(modules.remove(failed) =~= modules.drop_last());
    } else {
        lemma_failed_module_leaves_no_trace(bar, modules.drop_last(), failed, host);
        assert(modules.remove(failed).drop_last() =~= modules.drop_last().remove(failed));
        assert(modules.remove(failed).last() == modules.last());
    }
}

/// A module that its configuration turns off is not registered, whatever
/// its producer and its element would be: the bar is as it was.
pub proof fn law_disabled_module_is_kept_out(bar: BarView, module: Modules, host: RBar)
    requires
        !module.enabled(),
    ensures
        module.outcome(host) == Err::<(crate::modules::Controller, ElementView), Error>(
            Error::Disabled,
        ),
        module.placed(bar, host) == bar,
{
}

/// Isolation of two modules. Of a module that can be registered and one
/// that cannot, the first has its element in the bar and the second has
/// none, in whichever order the two are declared.
pub proof fn law_isolation(bar: BarView, valid: Modules, failing: Modules, host: RBar)
    requires
        valid.outcome(host) is Ok,
        failing.outcome(host) is Err,
    ensures
        loaded(bar, seq![valid, failing], host) == bar.place(
            valid.position(),
            valid.outcome(host)->Ok_0.1,
        ),
        loaded(bar, seq![failing, valid], host) == loaded(bar, seq![valid, failing], host),
{
    lemma_failed_module_leaves_no_trace(bar, seq![valid, failing], 1, host);
    lemma_failed_module_leaves_no_trace(bar, seq![failing, valid], 0, host);
    assert(seq![valid, failing].remove(1) =~= seq![valid]);
    assert(seq![failing, valid].remove(0) =~= seq![valid]);
    assert(seq![valid].drop_last() =~= Seq::<Modules>::empty());
    assert(loaded(bar, seq![valid], host) == valid.placed(
        loaded(bar, seq![valid].drop_last(), host),
        host,
    ));
}

/// The number of turns that the task of a producer has taken when
/// `elapsed` milliseconds have passed since its first one: it takes one at
/// once, and one more after each full interval.
pub open spec fn turns_by(interval: nat, elapsed: nat) -> nat
    recommends
        interval > 0,
{
    elapsed / interval + 1
}

impl<S> ContextView<S> {
    /// A pipeline in which nothing waits: both sides of the mailbox are
    /// there and it is empty, the channel is open, and subscriber `sub` has
    /// read all that was published.
    pub open spec fn at_rest(self, sub: nat) -> bool {
        &&& self.mailbox.queue.len() == 0
        &&& self.mailbox.capacity > 0
        &&& self.mailbox.sending
        &&& self.mailbox.receiving
        &&& self.updates.open
        &&& self.updates.capacity > 0
        &&& self.updates.valid()
        &&& self.updates.listening(sub)
        &&& self.updates.cursors[sub as int] == Some(self.updates.history.len())
    }

    /// The pipeline after one interval at work: the producer has read
    /// `value` and offered it, the relay has taken its turn, and subscriber
    /// `sub` has asked for its next value.
    pub open spec fn cycle(self, interval: u64, value: S, sub: nat) -> Self {
        self.produce(interval, Ok(value)).relay().recv(sub)
    }

    /// What subscriber `sub` is handed at the end of such an interval.
    pub open spec fn cycle_hands(self, interval: u64, value: S, sub: nat) -> Received<S> {
        self.produce(interval, Ok(value)).relay().updates.received(sub)
    }

    /// The pipeline after one such interval for each of `values`.
    pub open spec fn cycles(self, interval: u64, values: Seq<S>, sub: nat) -> Self
        decreases values.len(),
    {
        if values.len() == 0 {
            self
        } else {
            self.cycles(interval, values.drop_last(), sub).cycle(interval, values.last(), sub)
        }
    }

    /// The values that subscriber `sub` is handed in these intervals.
    pub open spec fn observed(self, interval: u64, values: Seq<S>, sub: nat) -> Seq<S>
        decreases values.len(),
    {
        if values.len() == 0 {
            Seq::empty()
        } else {
            let earlier = self.observed(interval, values.drop_last(), sub);
            match self.cycles(interval, values.drop_last(), sub).cycle_hands(
                interval,
                values.last(),
                sub,
            ) {
                Received::Value(value) => earlier.push(value),
                _ => earlier,
            }
        }
    }
}

/// One update for each interval. In a pipeline in which nothing waits, the
/// subscriber is handed what the producer reads, once per turn of the
/// producer and in its order. A producer with the interval I has taken
/// T / I + 1 turns when the time T has passed, so the subscriber has seen
/// that many updates, which is more than T / I - 1.
pub proof fn law_updates_per_interval<S>(
    context: ContextView<S>,
    interval: u64,
    elapsed: nat,
    values: Seq<S>,
    sub: nat,
)
    requires
        interval > 0,
        context.at_rest(sub),
        values.len() == turns_by(interval as nat, elapsed),
    ensures
        context.observed(interval, values, sub) == values,
        context.observed(interval, values, sub).len() >= elapsed / (interval as nat) - 1,
        context.cycles(interval, values, sub).at_rest(sub),
{
    lemma_cycles(context, interval, values, sub);
}

/// In a pipeline in which nothing waits, each value that the producer reads
/// reaches the subscriber in the same interval, and nothing waits
/// afterwards.
pub proof fn lemma_cycles<S>(context: ContextView<S>, interval: u64, values: Seq<S>, sub: nat)
    requires
        context.at_rest(sub),
    ensures
        context.observed(interval, values, sub) == values,
        context.cycles(interval, values, sub).at_rest(sub),
    decreases values.len(),
{
    if values.len() == 0 {
        assert(context.observed(interval, values, sub) =~= values);
    } else {
        let front = values.drop_last();
        lemma_cycles(context, interval, front, sub);
        let before = context.cycles(interval, front, sub);
        let value = values.last();
        lemma_listener_counts(before.updates.cursors, sub as int);
        let sent = before.produce(interval, Ok(value));
        assert(before.mailbox.sent(Events::Update(value)) == Sent::<Events<S>>::Accepted);
        assert(sent.mailbox.queue =~= seq![Events::Update(value)]);
        assert(sent.mailbox.taken() == Taken::Value(Events::Update(value)));
        let relayed = sent.relay();
        assert(relayed.mailbox.queue =~= Seq::<Events<S>>::empty());
        assert(relayed.updates.history == before.updates.history.push(value));
        assert(relayed.updates.received(sub) == Received::Value(value));
        let after = relayed.recv(sub);
        assert(after.updates.valid()) by {
            assert forall|other: int| 0 <= other < after.updates.cursors.len() implies (
            #[trigger] after.updates.cursors[other] matches Some(cursor) ==> cursor
                <= after.updates.history.len()) by {
                assert(before.updates.cursors[other] matches Some(cursor) ==> cursor
                    <= before.updates.history.len());
            }
        }
        assert(context.observed(interval, values, sub) =~= values);
    }
}

/// One class of a state at any time. Whatever classes the element of the
/// power module had, once a reading is shown on it the class of the
/// reading's state is the only class of a state that it has. This holds of
/// the element as it is built, and after every update.
pub proof fn law_one_state_class(element: ElementView, reading: Reading, precision: nat)
    ensures
        forall|state: State|
            power_showing(element, reading, precision).classes.contains(
                #[trigger] state_class(state),
            ) <==> state == reading.state,
        forall|name: Seq<char>|
            battery_classes().contains(name) ==> (#[trigger] battery_showing(
                element,
                reading,
                precision,
            ).classes.contains(name) <==> name == battery_class(reading.state)),
{
    lemma_state_classes();
    lemma_marked(element.classes, state_classes(), state_index(reading.state));
    assert forall|state: State|
        power_showing(element, reading, precision).classes.contains(
            #[trigger] state_class(state),
        ) <==> state == reading.state by {
        assert(state_classes()[state_index(state)] == state_class(state));
        assert(state_classes().contains(state_class(state)));
        assert(state_classes()[state_index(reading.state)] == state_class(reading.state));
        if state != reading.state {
            assert(state_index(state) != state_index(reading.state));
        }
    }
    lemma_battery_classes();
    lemma_marked(element.classes, battery_classes(), battery_index(reading.state));
    assert(battery_classes()[battery_index(reading.state)] == battery_class(reading.state));
}

} // verus!
