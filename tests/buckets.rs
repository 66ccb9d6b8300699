use soltix::address::Address;
use soltix::errors::RegistryError;
use soltix::events_registry::{EventStatus, EventsRegistry, MAX_EVENTS_PER_CATEGORY};

fn addr(n: u8) -> Address {
    Address::new([n; 32])
}

fn total(events: &EventsRegistry) -> usize {
    events.count(EventStatus::Upcoming) + events.count(EventStatus::Ongoing) + events.count(EventStatus::Finished)
}

fn holding(events: &EventsRegistry, id: Address) -> usize {
    [&events.upcoming_events, &events.ongoing_events, &events.finished_events]
        .iter()
        .filter(|b| b.contains(&id))
        .count()
}

#[test]
fn list_event_appends_and_refuses_duplicates() {
    let mut events = EventsRegistry::new();
    events.list_event(addr(1), EventStatus::Upcoming).unwrap();
    events.list_event(addr(2), EventStatus::Upcoming).unwrap();
    assert_eq!(events.upcoming_events, vec![addr(1), addr(2)]);
    let r = events.list_event(addr(1), EventStatus::Finished);
    assert_eq!(r, Err(RegistryError::EventAlreadyListed));
    assert!(events.finished_events.is_empty());
}

#[test]
fn list_event_into_full_bucket() {
    let mut events = EventsRegistry::new();
    for k in 0..MAX_EVENTS_PER_CATEGORY as u8 {
        events.list_event(addr(k + 1), EventStatus::Ongoing).unwrap();
    }
    let r = events.list_event(addr(9), EventStatus::Ongoing);
    assert_eq!(r, Err(RegistryError::CategoryFull));
    assert_eq!(events.ongoing_events, vec![addr(1), addr(2), addr(3)]);
}

#[test]
fn move_keeps_order_of_the_others() {
    let mut events = EventsRegistry::new();
    for k in 1..=3u8 {
        events.list_event(addr(k), EventStatus::Upcoming).unwrap();
    }
    events.move_event(addr(2), EventStatus::Ongoing).unwrap();
    assert_eq!(events.upcoming_events, vec![addr(1), addr(3)]);
    assert_eq!(events.ongoing_events, vec![addr(2)]);
    events.move_event(addr(1), EventStatus::Ongoing).unwrap();
    assert_eq!(events.upcoming_events, vec![addr(3)]);
    assert_eq!(events.ongoing_events, vec![addr(2), addr(1)]);
}

#[test]
fn move_keeps_membership_and_total() {
    let mut events = EventsRegistry::new();
    events.list_event(addr(1), EventStatus::Upcoming).unwrap();
    events.list_event(addr(2), EventStatus::Ongoing).unwrap();
    events.list_event(addr(3), EventStatus::Finished).unwrap();
    let before = total(&events);
    for (id, status) in [
        (addr(1), EventStatus::Finished),
        (addr(3), EventStatus::Upcoming),
        (addr(2), EventStatus::Ongoing),
        (addr(1), EventStatus::Ongoing),
    ] {
        events.move_event(id, status).unwrap();
        assert_eq!(holding(&events, id), 1);
        assert!(match status {
            EventStatus::Upcoming => events.upcoming_events.contains(&id),
            EventStatus::Ongoing => events.ongoing_events.contains(&id),
            EventStatus::Finished => events.finished_events.contains(&id),
        });
        assert_eq!(total(&events), before);
    }
}

#[test]
fn move_from_finished_to_ongoing_with_upcoming_full() {
    let mut events = EventsRegistry::new();
    for k in 1..=3u8 {
        events.list_event(addr(k), EventStatus::Upcoming).unwrap();
    }
    events.list_event(addr(10), EventStatus::Finished).unwrap();
    events.list_event(addr(11), EventStatus::Finished).unwrap();
    events.list_event(addr(12), EventStatus::Ongoing).unwrap();
    let r = events.move_event(addr(10), EventStatus::Ongoing);
    assert_eq!(r, Ok(()));
    assert_eq!(events.count(EventStatus::Finished), 1);
    assert_eq!(events.finished_events, vec![addr(11)]);
    assert_eq!(events.count(EventStatus::Ongoing), 2);
    assert_eq!(events.ongoing_events, vec![addr(12), addr(10)]);
    assert_eq!(events.upcoming_events, vec![addr(1), addr(2), addr(3)]);
}

#[test]
fn move_into_full_bucket_changes_nothing() {
    let mut events = EventsRegistry::new();
    for k in 1..=3u8 {
        events.list_event(addr(k), EventStatus::Ongoing).unwrap();
    }
    events.list_event(addr(9), EventStatus::Upcoming).unwrap();
    let r = events.move_event(addr(9), EventStatus::Ongoing);
    assert_eq!(r, Err(RegistryError::CategoryFull));
    assert_eq!(events.upcoming_events, vec![addr(9)]);
    assert_eq!(events.ongoing_events, vec![addr(1), addr(2), addr(3)]);
}

#[test]
fn move_within_full_bucket_goes_to_the_end() {
    let mut events = EventsRegistry::new();
    for k in 1..=3u8 {
        events.list_event(addr(k), EventStatus::Finished).unwrap();
    }
    let r = events.move_event(addr(1), EventStatus::Finished);
    assert_eq!(r, Ok(()));
    assert_eq!(events.finished_events, vec![addr(2), addr(3), addr(1)]);
}

#[test]
fn move_unknown_event_fails() {
    let mut events = EventsRegistry::new();
    events.list_event(addr(1), EventStatus::Upcoming).unwrap();
    let r = events.move_event(addr(2), EventStatus::Ongoing);
    assert_eq!(r, Err(RegistryError::EventNotFound));
    assert_eq!(events.upcoming_events, vec![addr(1)]);
    assert!(events.ongoing_events.is_empty());
}

#[test]
fn addresses_compare_by_bytes() {
    let mut bytes = [5u8; 32];
    assert_eq!(Address::new(bytes), addr(5));
    bytes[31] = 6;
    assert_ne!(Address::new(bytes), addr(5));
    assert_eq!(Address::zero(), Address::new([0; 32]));
}

#[test]
fn bucket_well_formedness_is_checked() {
    let mut events = EventsRegistry::new();
    assert!(events.is_well_formed());
    events.list_event(addr(1), EventStatus::Upcoming).unwrap();
    events.list_event(addr(2), EventStatus::Ongoing).unwrap();
    assert!(events.is_well_formed());
    events.finished_events.push(addr(1));
    assert!(!events.is_well_formed());
    events.finished_events.clear();
    events.ongoing_events.push(addr(2));
    assert!(!events.is_well_formed());
    events.ongoing_events = vec![addr(5), addr(6), addr(7), addr(8)];
    assert!(!events.is_well_formed());
}
