use soltix::address::Address;
use soltix::errors::EventError;
use soltix::ticket::{create_ticket, initialize, redeem_ticket};

fn addr(n: u8) -> Address {
    Address::new([n; 32])
}

#[test]
fn redeem_twice_fails_the_second_time() {
    let mut manager = initialize(addr(1));
    create_ticket(&mut manager, addr(40), addr(8), addr(3), 1).unwrap();
    assert_eq!(redeem_ticket(&mut manager, addr(40)), Ok(()));
    assert!(manager.tickets[0].used);
    assert_eq!(redeem_ticket(&mut manager, addr(40)), Err(EventError::TicketAlreadyUsed));
    assert!(manager.tickets[0].used);
}

#[test]
fn redeem_unknown_ticket_fails() {
    let mut manager = initialize(addr(1));
    create_ticket(&mut manager, addr(40), addr(8), addr(3), 1).unwrap();
    assert_eq!(redeem_ticket(&mut manager, addr(41)), Err(EventError::InvalidTicket));
    assert!(!manager.tickets[0].used);
}

#[test]
fn redeem_marks_only_that_ticket() {
    let mut manager = initialize(addr(1));
    create_ticket(&mut manager, addr(40), addr(8), addr(3), 1).unwrap();
    create_ticket(&mut manager, addr(41), addr(9), addr(3), 2).unwrap();
    redeem_ticket(&mut manager, addr(41)).unwrap();
    assert!(!manager.tickets[0].used);
    assert!(manager.tickets[1].used);
}

#[test]
fn create_ticket_records_an_unused_ticket() {
    let mut manager = initialize(addr(1));
    create_ticket(&mut manager, addr(40), addr(8), addr(3), 7).unwrap();
    assert_eq!(manager.ticket_count, 1);
    let t = manager.tickets[0];
    assert_eq!((t.address, t.buyer, t.event, t.number, t.used), (addr(40), addr(8), addr(3), 7, false));
    let r = create_ticket(&mut manager, addr(40), addr(9), addr(3), 8);
    assert_eq!(r, Err(EventError::DuplicateTicket));
    assert_eq!(manager.ticket_count, 1);
    assert_eq!(manager.tickets.len(), 1);
}

#[test]
fn ledger_well_formedness_is_checked() {
    let mut manager = initialize(addr(1));
    assert!(manager.is_well_formed());
    create_ticket(&mut manager, addr(40), addr(8), addr(3), 1).unwrap();
    create_ticket(&mut manager, addr(41), addr(8), addr(3), 2).unwrap();
    assert!(manager.is_well_formed());
    manager.tickets[1].address = addr(40);
    assert!(!manager.is_well_formed());
    manager.tickets[1].address = addr(41);
    manager.ticket_count = 3;
    assert!(!manager.is_well_formed());
}
