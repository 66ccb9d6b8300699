use soltix::address::Address;
use soltix::errors::RegistryError;
use soltix::events_registry::EventStatus;
use soltix::registry::{
    initialize, initialize_events, register_organization, update_event_status, MAX_ORGANIZATIONS,
};

fn addr(n: u8) -> Address {
    Address::new([n; 32])
}

#[test]
fn new_registry_is_empty() {
    let registry = initialize(addr(1));
    assert_eq!(registry.authority, addr(1));
    assert_eq!(registry.organization_count, 0);
    assert_eq!(registry.organization_count_added, 0);
    assert!(registry.organizations.is_empty());
    assert_eq!(registry.events_account, Address::zero());
}

#[test]
fn register_fills_slots_in_order() {
    let mut registry = initialize(addr(1));
    for k in 0..3u8 {
        let info = register_organization(
            &mut registry,
            addr(10 + k),
            addr(20 + k),
            format!("org {}", k),
            String::from("a description"),
        )
        .unwrap();
        assert_eq!(info.id, k as u64);
        assert_eq!(info.owner, addr(10 + k));
        assert_eq!(info.name, format!("org {}", k));
        assert_eq!(info.description, "a description");
        assert!(info.kyc_verified);
        assert_eq!(info.org_program_id, Address::zero());
    }
    assert_eq!(registry.organizations, vec![addr(20), addr(21), addr(22)]);
    assert_eq!(registry.organization_count, 3);
    assert_eq!(registry.organization_count_added, 3);
}

#[test]
fn register_beyond_capacity_fails_and_keeps_slots() {
    let mut registry = initialize(addr(1));
    for k in 0..MAX_ORGANIZATIONS as u8 {
        register_organization(&mut registry, addr(10), addr(20 + k), String::from("n"), String::new())
            .unwrap();
    }
    let before = registry.organizations.clone();
    let r = register_organization(&mut registry, addr(10), addr(99), String::from("n"), String::new());
    assert_eq!(r.err(), Some(RegistryError::RegistryFull));
    assert_eq!(registry.organizations, before);
    assert_eq!(registry.organization_count, 3);
    // a full registry refuses even an invalid request with RegistryFull
    let r = register_organization(&mut registry, addr(10), addr(99), "x".repeat(51), String::new());
    assert_eq!(r.err(), Some(RegistryError::RegistryFull));
    assert_eq!(registry.organizations, before);
}

#[test]
fn register_name_limit_is_fifty_bytes() {
    let mut registry = initialize(addr(1));
    let r = register_organization(&mut registry, addr(2), addr(3), "n".repeat(51), String::new());
    assert_eq!(r.err(), Some(RegistryError::NameTooLong));
    assert!(registry.organizations.is_empty());
    assert_eq!(registry.organization_count, 0);
    // 26 two-byte characters are 52 bytes
    let r = register_organization(&mut registry, addr(2), addr(3), "é".repeat(26), String::new());
    assert_eq!(r.err(), Some(RegistryError::NameTooLong));
    let r = register_organization(&mut registry, addr(2), addr(3), "n".repeat(50), String::new());
    assert!(r.is_ok());
}

#[test]
fn register_description_limit_is_two_hundred_bytes() {
    let mut registry = initialize(addr(1));
    let r = register_organization(&mut registry, addr(2), addr(3), String::from("n"), "d".repeat(201));
    assert_eq!(r.err(), Some(RegistryError::DescriptionTooLong));
    assert!(registry.organizations.is_empty());
    let r = register_organization(&mut registry, addr(2), addr(3), String::from("n"), "d".repeat(200));
    assert!(r.is_ok());
}

#[test]
fn initialize_events_needs_authority() {
    let mut registry = initialize(addr(1));
    let r = initialize_events(&mut registry, addr(2), addr(7));
    assert_eq!(r.err(), Some(RegistryError::Unauthorized));
    assert_eq!(registry.events_account, Address::zero());
    let events = initialize_events(&mut registry, addr(1), addr(7)).unwrap();
    assert_eq!(registry.events_account, addr(7));
    assert!(events.upcoming_events.is_empty());
    assert!(events.ongoing_events.is_empty());
    assert!(events.finished_events.is_empty());
}

#[test]
fn update_event_status_needs_authority() {
    let mut registry = initialize(addr(1));
    let mut events = initialize_events(&mut registry, addr(1), addr(7)).unwrap();
    events.list_event(addr(30), EventStatus::Upcoming).unwrap();
    let r = update_event_status(&registry, &mut events, addr(2), addr(30), EventStatus::Ongoing);
    assert_eq!(r, Err(RegistryError::Unauthorized));
    assert_eq!(events.upcoming_events, vec![addr(30)]);
    assert!(events.ongoing_events.is_empty());
    let r = update_event_status(&registry, &mut events, addr(1), addr(30), EventStatus::Ongoing);
    assert_eq!(r, Ok(()));
    assert!(events.upcoming_events.is_empty());
    assert_eq!(events.ongoing_events, vec![addr(30)]);
}

#[test]
fn update_event_status_of_unknown_event() {
    let mut registry = initialize(addr(1));
    let mut events = initialize_events(&mut registry, addr(1), addr(7)).unwrap();
    let r = update_event_status(&registry, &mut events, addr(1), addr(30), EventStatus::Finished);
    assert_eq!(r, Err(RegistryError::EventNotFound));
}

#[test]
fn list_event_needs_authority() {
    let mut registry = initialize(addr(1));
    let mut events = initialize_events(&mut registry, addr(1), addr(7)).unwrap();
    let r = soltix::registry::list_event(&registry, &mut events, addr(2), addr(30), EventStatus::Upcoming);
    assert_eq!(r, Err(RegistryError::Unauthorized));
    assert!(events.upcoming_events.is_empty());
    let r = soltix::registry::list_event(&registry, &mut events, addr(1), addr(30), EventStatus::Finished);
    assert_eq!(r, Ok(()));
    assert_eq!(events.finished_events, vec![addr(30)]);
}

#[test]
fn registry_well_formedness_is_checked() {
    let mut registry = initialize(addr(1));
    assert!(registry.is_well_formed());
    register_organization(&mut registry, addr(2), addr(3), String::from("n"), String::new()).unwrap();
    assert!(registry.is_well_formed());
    registry.organization_count = 5;
    assert!(!registry.is_well_formed());
    registry.organization_count = 1;
    registry.organizations.push(addr(4));
    assert!(!registry.is_well_formed());
}
