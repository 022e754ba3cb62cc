use std::sync::Arc;

use rbar::broadcast::{Broadcast, Published, Received};
use rbar::config::Config;
use rbar::mailbox::{Mailbox, Sent, Taken};
use rbar::modules::clock::Timestamp;
use rbar::modules::{Controller, Error, Events, Flow, ModuleFactory, Relayed, Step, WidgetContext};
use rbar::rbar::RBar;

fn host() -> Arc<RBar> {
    Arc::new(RBar::new(
        Config::default(),
        ".".to_string(),
        Timestamp { secs: 0, nanos: 0, offset: 0 },
        Vec::new(),
    ))
}

fn context(mailbox: usize, updates: usize) -> WidgetContext<u32> {
    WidgetContext { id: 1, rbar: host(), tx: Mailbox::new(mailbox), update_tx: Broadcast::new(updates) }
}

fn drain(channel: &mut Broadcast<u32>, sub: usize) -> Vec<u32> {
    let mut seen = Vec::new();
    loop {
        match channel.try_recv(sub) {
            Received::Value(value) => seen.push(value),
            Received::Lagged(_) => {}
            Received::Empty | Received::Closed => return seen,
        }
    }
}

#[test]
fn mailbox_keeps_order() {
    let mut mailbox: Mailbox<u32> = Mailbox::new(4);
    for value in [3, 1, 2] {
        assert!(matches!(mailbox.try_send(value), Sent::Accepted));
    }
    assert_eq!(mailbox.len(), 3);
    assert_eq!(mailbox.capacity(), 4);
    assert!(matches!(mailbox.try_recv(), Taken::Value(3)));
    assert!(matches!(mailbox.try_recv(), Taken::Value(1)));
    assert!(matches!(mailbox.try_recv(), Taken::Value(2)));
    assert!(matches!(mailbox.try_recv(), Taken::Empty));
}

#[test]
fn mailbox_hands_back_what_does_not_fit() {
    let mut mailbox: Mailbox<u32> = Mailbox::new(2);
    assert!(matches!(mailbox.try_send(1), Sent::Accepted));
    assert!(matches!(mailbox.try_send(2), Sent::Accepted));
    assert!(matches!(mailbox.try_send(3), Sent::Full(3)));
    assert!(matches!(mailbox.try_send(3), Sent::Full(3)));
    assert_eq!(mailbox.len(), 2);
    assert!(matches!(mailbox.try_recv(), Taken::Value(1)));
    assert!(matches!(mailbox.try_send(3), Sent::Accepted));
    assert!(matches!(mailbox.try_recv(), Taken::Value(2)));
    assert!(matches!(mailbox.try_recv(), Taken::Value(3)));
}

#[test]
fn mailbox_without_room_takes_nothing() {
    let mut mailbox: Mailbox<u32> = Mailbox::new(0);
    assert!(matches!(mailbox.try_send(1), Sent::Full(1)));
    assert!(matches!(mailbox.try_recv(), Taken::Empty));
}

#[test]
fn mailbox_closes_for_good() {
    let mut mailbox: Mailbox<u32> = Mailbox::new(2);
    assert!(matches!(mailbox.try_send(1), Sent::Accepted));
    assert!(!mailbox.is_closed());
    mailbox.close();
    assert!(mailbox.is_closed());
    assert!(matches!(mailbox.try_send(2), Sent::Closed(2)));
    assert!(matches!(mailbox.try_recv(), Taken::Value(1)));
    assert!(matches!(mailbox.try_recv(), Taken::Closed));
    assert!(matches!(mailbox.try_recv(), Taken::Closed));
}

#[test]
fn mailbox_without_consumer_refuses() {
    let mut mailbox: Mailbox<u32> = Mailbox::new(2);
    mailbox.disconnect();
    assert!(matches!(mailbox.try_send(1), Sent::Closed(1)));
    assert_eq!(mailbox.len(), 0);
}

#[test]
fn broadcast_without_subscriber_hands_value_back() {
    let mut channel: Broadcast<u32> = Broadcast::new(4);
    assert_eq!(channel.receiver_count(), 0);
    assert!(matches!(channel.publish(7), Published::Unobserved(7)));
    let sub = channel.subscribe();
    assert!(matches!(channel.try_recv(sub), Received::Empty));
}

#[test]
fn fan_out_two_subscribers_see_the_same() {
    let mut channel: Broadcast<u32> = Broadcast::new(8);
    let a = channel.subscribe();
    let b = channel.subscribe();
    assert_eq!((a, b), (0, 1));
    for value in [10, 20, 30, 40, 50] {
        assert!(matches!(channel.publish(value), Published::Delivered(2)));
    }
    assert_eq!(drain(&mut channel, a), vec![10, 20, 30, 40, 50]);
    assert_eq!(drain(&mut channel, b), vec![10, 20, 30, 40, 50]);
}

#[test]
fn fan_out_at_different_paces() {
    let mut channel: Broadcast<u32> = Broadcast::new(4);
    let a = channel.subscribe();
    let b = channel.subscribe();
    let mut seen_a = Vec::new();
    for value in [1, 2, 3, 4] {
        channel.publish(value);
        seen_a.extend(drain(&mut channel, a));
    }
    assert_eq!(seen_a, vec![1, 2, 3, 4]);
    assert_eq!(drain(&mut channel, b), vec![1, 2, 3, 4]);
}

#[test]
fn late_subscriber_sees_only_what_follows() {
    let mut channel: Broadcast<u32> = Broadcast::new(8);
    let early = channel.subscribe();
    for value in [1, 2, 3] {
        channel.publish(value);
    }
    let late = channel.subscribe();
    assert!(matches!(channel.try_recv(late), Received::Empty));
    channel.publish(4);
    channel.publish(5);
    assert_eq!(drain(&mut channel, late), vec![4, 5]);
    assert_eq!(drain(&mut channel, early), vec![1, 2, 3, 4, 5]);
}

#[test]
fn slow_subscriber_loses_the_oldest() {
    let mut channel: Broadcast<u32> = Broadcast::new(2);
    let slow = channel.subscribe();
    let quick = channel.subscribe();
    let mut seen_quick = Vec::new();
    for value in [1, 2, 3, 4, 5] {
        assert!(matches!(channel.publish(value), Published::Delivered(2)));
        seen_quick.extend(drain(&mut channel, quick));
    }
    assert_eq!(seen_quick, vec![1, 2, 3, 4, 5]);
    assert!(matches!(channel.try_recv(slow), Received::Lagged(3)));
    assert!(matches!(channel.try_recv(slow), Received::Value(4)));
    assert!(matches!(channel.try_recv(slow), Received::Value(5)));
    assert!(matches!(channel.try_recv(slow), Received::Empty));
}

#[test]
fn subscriber_that_left_is_not_counted() {
    let mut channel: Broadcast<u32> = Broadcast::new(2);
    let a = channel.subscribe();
    let b = channel.subscribe();
    assert_eq!(channel.receiver_count(), 2);
    channel.unsubscribe(a);
    assert_eq!(channel.receiver_count(), 1);
    assert!(matches!(channel.publish(1), Published::Delivered(1)));
    assert!(matches!(channel.try_recv(a), Received::Closed));
    assert!(matches!(channel.try_recv(b), Received::Value(1)));
    channel.unsubscribe(b);
    assert!(matches!(channel.publish(2), Published::Unobserved(2)));
    assert!(matches!(channel.try_recv(99), Received::Closed));
}

#[test]
fn closed_channel_is_read_to_its_end() {
    let mut channel: Broadcast<u32> = Broadcast::new(2);
    let sub = channel.subscribe();
    channel.publish(1);
    channel.close();
    assert!(matches!(channel.publish(2), Published::Unobserved(2)));
    assert!(matches!(channel.try_recv(sub), Received::Value(1)));
    assert!(matches!(channel.try_recv(sub), Received::Closed));
}

#[test]
fn relay_forwards_in_order() {
    let mut context = context(4, 4);
    let sub = context.subscribe();
    for value in [5, 6, 7] {
        assert!(matches!(context.send(Events::Update(value)), Sent::Accepted));
    }
    assert_eq!(context.relay(), Relayed::Forwarded(1));
    assert_eq!(context.relay(), Relayed::Forwarded(1));
    assert_eq!(context.relay(), Relayed::Forwarded(1));
    assert_eq!(context.relay(), Relayed::Idle);
    assert!(matches!(context.recv(sub), Received::Value(5)));
    assert!(matches!(context.recv(sub), Received::Value(6)));
    assert!(matches!(context.recv(sub), Received::Value(7)));
    assert!(matches!(context.recv(sub), Received::Empty));
}

#[test]
fn relay_goes_on_without_subscriber() {
    let mut context = context(4, 4);
    assert!(matches!(context.send(Events::Update(1)), Sent::Accepted));
    assert_eq!(context.relay(), Relayed::Unobserved);
    assert_eq!(context.tx.len(), 0);
    assert_eq!(context.relay(), Relayed::Idle);

    let sub = context.subscribe();
    assert!(matches!(context.recv(sub), Received::Empty));
    assert!(matches!(context.send(Events::Update(2)), Sent::Accepted));
    assert_eq!(context.relay(), Relayed::Forwarded(1));
    assert!(matches!(context.recv(sub), Received::Value(2)));
    assert!(matches!(context.recv(sub), Received::Empty));
}

#[test]
fn relay_ends_when_producer_is_gone() {
    let mut context = context(4, 4);
    let sub = context.subscribe();
    context.send(Events::Update(1));
    context.tx.close();
    assert_eq!(context.relay(), Relayed::Forwarded(1));
    assert_eq!(context.relay(), Relayed::Stopped);
    assert!(matches!(context.recv(sub), Received::Value(1)));
    assert!(matches!(context.recv(sub), Received::Closed));
}

#[test]
fn setup_receiver_empties_the_mailbox() {
    let factory = ModuleFactory::new(host());
    let mut context = context(8, 8);
    let sub = context.subscribe();
    for value in 0..5 {
        context.send(Events::Update(value));
    }
    assert_eq!(factory.setup_receiver(&mut context), Flow::Continue);
    assert_eq!(context.tx.len(), 0);
    assert_eq!(drain(&mut context.update_tx, sub), vec![0, 1, 2, 3, 4]);

    context.send(Events::Update(9));
    context.tx.close();
    assert_eq!(factory.setup_receiver(&mut context), Flow::Stop);
    assert!(matches!(context.recv(sub), Received::Value(9)));
    assert!(matches!(context.recv(sub), Received::Closed));
}

#[test]
fn backpressure_producer_waits_with_value_in_hand() {
    let capacity = 3;
    let mut context = context(capacity, 8);
    let sub = context.subscribe();
    let controller = Controller::every(1000);
    for value in 0..capacity as u32 {
        assert!(matches!(controller.turn(&mut context, Ok(value)), Step::Sleep(1000)));
    }
    assert!(matches!(controller.turn(&mut context, Ok(3)), Step::Wait(3)));
    assert!(matches!(controller.turn(&mut context, Ok(3)), Step::Wait(3)));
    assert_eq!(context.tx.len(), capacity);
    assert!(!context.tx.is_closed());

    assert_eq!(context.relay(), Relayed::Forwarded(1));
    assert!(matches!(controller.turn(&mut context, Ok(3)), Step::Sleep(1000)));
    let factory = ModuleFactory::new(host());
    factory.setup_receiver(&mut context);
    assert_eq!(drain(&mut context.update_tx, sub), vec![0, 1, 2, 3]);
}

#[test]
fn producer_passes_over_a_failed_reading() {
    let mut context = context(2, 2);
    let sub = context.subscribe();
    let controller = Controller::every(250);
    assert!(matches!(controller.turn(&mut context, Err(Error::Transient)), Step::Sleep(250)));
    assert_eq!(context.tx.len(), 0);
    assert!(!context.tx.is_closed());
    assert!(matches!(controller.turn(&mut context, Ok(8)), Step::Sleep(250)));
    assert_eq!(context.relay(), Relayed::Forwarded(1));
    assert!(matches!(context.recv(sub), Received::Value(8)));
}

#[test]
fn producer_ends_when_its_source_is_gone() {
    let mut context = context(2, 2);
    let controller = Controller::every(250);
    assert!(matches!(controller.turn(&mut context, Err(Error::Unavailable)), Step::Stop));
    assert!(context.tx.is_closed());
    assert_eq!(context.relay(), Relayed::Stopped);
}

#[test]
fn producer_ends_when_mailbox_is_closed() {
    let mut context = context(2, 2);
    context.tx.disconnect();
    let controller = Controller::every(250);
    assert!(matches!(controller.turn(&mut context, Ok(1)), Step::Stop));
}

#[test]
fn one_update_for_each_interval() {
    let interval = 500;
    let elapsed = 2500;
    let mut context = context(32, 32);
    let sub = context.subscribe();
    let controller = Controller::every(interval);
    let mut now = 0;
    let mut seen = Vec::new();
    while now <= elapsed {
        match controller.turn(&mut context, Ok(now as u32)) {
            Step::Sleep(pause) => {
                context.relay();
                if let Received::Value(value) = context.recv(sub) {
                    seen.push(value);
                }
                now += pause;
            }
            _ => panic!("the mailbox has room"),
        }
    }
    assert_eq!(seen, vec![0, 500, 1000, 1500, 2000, 2500]);
    assert!(seen.len() as u64 >= elapsed / interval - 1);
    assert!(seen.len() >= 4);
}
