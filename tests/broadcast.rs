use rooms::broker::Broker;
use rooms::id::parse_id;
use rooms::rooms::{InvalidId, MutationRoot, MutationType, QueryRoot, RoomChanged, SubscriptionRoot};
use rooms::storage::Storage;

fn created(id: usize) -> RoomChanged {
    RoomChanged { mutation_type: MutationType::Created, id }
}

fn deleted(id: usize) -> RoomChanged {
    RoomChanged { mutation_type: MutationType::Deleted, id }
}

#[test]
fn delivers_every_event_in_order() {
    let mut b: Broker<u32> = Broker::new();
    let s = b.subscribe();
    for e in [3u32, 1, 4, 1, 5] {
        b.publish(e);
    }
    assert_eq!(b.take_pending(s), vec![3, 1, 4, 1, 5]);
    assert_eq!(b.take_pending(s), Vec::<u32>::new());
}

#[test]
fn late_subscriber_misses_earlier_events() {
    let mut b: Broker<u32> = Broker::new();
    let a = b.subscribe();
    b.publish(1);
    let late = b.subscribe();
    b.publish(2);
    b.publish(3);
    assert_ne!(a, late);
    assert_eq!(b.take_pending(late), vec![2, 3]);
    assert_eq!(b.take_pending(a), vec![1, 2, 3]);
}

#[test]
fn publish_without_subscribers_changes_nothing() {
    let mut b: Broker<u32> = Broker::new();
    assert!(!b.has_subscribers());
    b.publish(7);
    assert!(!b.has_subscribers());
    let s = b.subscribe();
    assert_eq!(s, 0);
    assert_eq!(b.pending(s), 0);
    assert_eq!(b.take_pending(s), Vec::<u32>::new());
}

#[test]
fn slow_and_fast_consumers_see_the_same_events() {
    let mut b: Broker<u32> = Broker::new();
    let fast = b.subscribe();
    let slow = b.subscribe();
    let mut fast_seen = Vec::new();
    for e in 0u32..6 {
        b.publish(e);
        while let Some(x) = b.try_next(fast) {
            fast_seen.push(x);
        }
    }
    assert_eq!(fast_seen, vec![0, 1, 2, 3, 4, 5]);
    assert_eq!(b.pending(slow), 6);
    assert_eq!(b.try_next(slow), Some(0));
    assert_eq!(b.take_pending(slow), vec![1, 2, 3, 4, 5]);
}

#[test]
fn unsubscribed_slot_is_vacated_and_reused() {
    let mut b: Broker<u32> = Broker::new();
    let a = b.subscribe();
    let c = b.subscribe();
    b.publish(1);
    b.unsubscribe(a);
    assert!(!b.is_subscribed(a));
    assert!(b.is_subscribed(c));
    assert_eq!(b.take_pending(a), Vec::<u32>::new());
    assert_eq!(b.try_next(a), None);
    b.publish(2);
    let d = b.subscribe();
    assert_eq!(d, a);
    b.publish(3);
    assert_eq!(b.take_pending(d), vec![3]);
    assert_eq!(b.take_pending(c), vec![1, 2, 3]);
    b.unsubscribe(c);
    b.unsubscribe(d);
    assert!(!b.has_subscribers());
    b.unsubscribe(99);
    assert_eq!(b.pending(99), 0);
}

#[test]
fn created_then_deleted_scenario() {
    let mut storage = Storage::new();
    let mut broker: Broker<RoomChanged> = Broker::new();
    let subs = SubscriptionRoot;
    let muts = MutationRoot;
    let s1 = subs.rooms(&mut broker, None);
    let id = muts.create_room(&mut storage, &mut broker, "general".to_string(), "leia".to_string());
    assert_eq!(id, 0);
    let s2 = subs.rooms(&mut broker, None);
    assert_eq!(muts.delete_room(&mut storage, &mut broker, "0"), Ok(true));
    assert_eq!(s1.next_events(&mut broker), vec![created(0), deleted(0)]);
    assert_eq!(s2.next_events(&mut broker), vec![deleted(0)]);
}

#[test]
fn filtered_subscription_scenario() {
    let mut broker: Broker<RoomChanged> = Broker::new();
    let s1 = SubscriptionRoot.rooms(&mut broker, Some(MutationType::Created));
    broker.publish(created(5));
    broker.publish(deleted(5));
    broker.publish(created(6));
    assert_eq!(s1.next_events(&mut broker), vec![created(5), created(6)]);
}

#[test]
fn filter_keeps_matching_events_in_order() {
    let events = vec![deleted(1), created(2), deleted(3), created(4)];
    assert_eq!(rooms::rooms::filter_events(&events, Some(MutationType::Deleted)), vec![deleted(1), deleted(3)]);
    assert_eq!(rooms::rooms::filter_events(&events, None), events);
    assert_eq!(rooms::rooms::filter_events(&Vec::new(), Some(MutationType::Created)), Vec::new());
}

#[test]
fn closed_subscription_gets_nothing() {
    let mut broker: Broker<RoomChanged> = Broker::new();
    let s = SubscriptionRoot.rooms(&mut broker, None);
    let slot = s.slot;
    s.close(&mut broker);
    broker.publish(created(1));
    assert!(!broker.is_subscribed(slot));
    assert!(!broker.has_subscribers());
}

#[test]
fn rooms_are_stored_listed_and_removed() {
    let mut storage = Storage::new();
    let mut broker: Broker<RoomChanged> = Broker::new();
    let m = MutationRoot;
    let a = m.create_room(&mut storage, &mut broker, "a".to_string(), "x".to_string());
    let b = m.create_room(&mut storage, &mut broker, "b".to_string(), "y".to_string());
    let c = m.create_room(&mut storage, &mut broker, "c".to_string(), "z".to_string());
    assert_eq!((a, b, c), (0, 1, 2));
    assert_eq!(m.delete_room(&mut storage, &mut broker, "7"), Ok(false));
    assert_eq!(m.delete_room(&mut storage, &mut broker, "1"), Ok(true));
    assert_eq!(m.delete_room(&mut storage, &mut broker, "+1"), Ok(false));
    let listed = QueryRoot.rooms(&storage);
    let names: Vec<(usize, String, String)> = listed
        .iter()
        .map(|r| (r.id(), r.name().to_string(), r.author().to_string()))
        .collect();
    assert_eq!(names, vec![(0, "a".to_string(), "x".to_string()), (2, "c".to_string(), "z".to_string())]);
    let d = m.create_room(&mut storage, &mut broker, "d".to_string(), "w".to_string());
    assert_eq!(d, 1);
    let ev = created(d);
    assert_eq!(ev.room(&storage).map(|r| r.name().to_string()), Some("d".to_string()));
    assert_eq!(deleted(9).room(&storage).map(|r| r.id()), None);
    assert_eq!(ev.mutation_type(), MutationType::Created);
    assert_eq!(ev.id(), 1);
}

#[test]
fn interval_adds_the_step() {
    let s = SubscriptionRoot;
    assert_eq!(s.interval(0, 1), 1);
    assert_eq!(s.interval(10, -3), 7);
    assert_eq!(s.interval(i32::MAX - 2, 2), i32::MAX);
}

#[test]
fn bad_id_is_an_error_and_changes_nothing() {
    let mut storage = Storage::new();
    let mut broker: Broker<RoomChanged> = Broker::new();
    let s = SubscriptionRoot.rooms(&mut broker, None);
    let m = MutationRoot;
    m.create_room(&mut storage, &mut broker, "a".to_string(), "x".to_string());
    assert_eq!(m.delete_room(&mut storage, &mut broker, "zero"), Err(InvalidId));
    assert_eq!(m.delete_room(&mut storage, &mut broker, ""), Err(InvalidId));
    assert_eq!(s.next_events(&mut broker), vec![created(0)]);
    assert!(storage.contains(0));
}

#[test]
fn ids_parse_as_decimal() {
    assert_eq!(parse_id("0"), Some(0));
    assert_eq!(parse_id("42"), Some(42));
    assert_eq!(parse_id("+7"), Some(7));
    assert_eq!(parse_id("007"), Some(7));
    assert_eq!(parse_id(&usize::MAX.to_string()), Some(usize::MAX));
    assert_eq!(parse_id("18446744073709551616"), None);
    assert_eq!(parse_id(""), None);
    assert_eq!(parse_id("+"), None);
    assert_eq!(parse_id("-1"), None);
    assert_eq!(parse_id(" 1"), None);
    assert_eq!(parse_id("1a"), None);
    assert_eq!(parse_id("\u{663}"), None);
}

#[test]
fn freed_id_is_reused_first() {
    let mut storage = Storage::new();
    let mut broker: Broker<RoomChanged> = Broker::new();
    let s = SubscriptionRoot.rooms(&mut broker, None);
    let m = MutationRoot;
    assert_eq!(m.create_room(&mut storage, &mut broker, "a".to_string(), "x".to_string()), 0);
    assert_eq!(m.create_room(&mut storage, &mut broker, "b".to_string(), "y".to_string()), 1);
    assert_eq!(m.delete_room(&mut storage, &mut broker, "0"), Ok(true));
    assert_eq!(m.delete_room(&mut storage, &mut broker, "1"), Ok(true));
    assert_eq!(
        s.next_events(&mut broker),
        vec![created(0), created(1), deleted(0), deleted(1)]
    );
    assert_eq!(m.create_room(&mut storage, &mut broker, "c".to_string(), "z".to_string()), 1);
    assert_eq!(m.create_room(&mut storage, &mut broker, "d".to_string(), "w".to_string()), 0);
    assert_eq!(m.create_room(&mut storage, &mut broker, "e".to_string(), "v".to_string()), 2);
}

#[test]
fn created_and_deleted_filters_split_the_stream() {
    let mut broker: Broker<RoomChanged> = Broker::new();
    let c = SubscriptionRoot.rooms(&mut broker, Some(MutationType::Created));
    let d = SubscriptionRoot.rooms(&mut broker, Some(MutationType::Deleted));
    for e in [created(1), deleted(1), created(2), created(3), deleted(3)] {
        broker.publish(e);
    }
    let cs = c.next_events(&mut broker);
    let ds = d.next_events(&mut broker);
    assert_eq!(cs, vec![created(1), created(2), created(3)]);
    assert_eq!(ds, vec![deleted(1), deleted(3)]);
    assert_eq!(cs.len() + ds.len(), 5);
}
