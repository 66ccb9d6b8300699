use vstd::prelude::*;
use crate::address::Address;
use crate::errors::EventError;

verus! {

/// A sold ticket. Only its `used` flag ever changes, from `false` to `true`.
#[derive(Clone, Copy, Debug)]
pub struct Ticket {
    /// Address of the ticket's account.
    pub address: Address,
    pub buyer: Address,
    /// Address of the event the ticket admits to.
    pub event: Address,
    /// Sequence number of the ticket within its event, counting from one.
    pub number: u64,
    pub used: bool,
}

/// The ledger of sold tickets, with its authority and the number of tickets
/// it records. No two tickets share an address.
pub struct EventManager {
    pub authority: Address,
    pub ticket_count: u64,
    pub tickets: Vec<Ticket>,
}

/// The ticket `t` once redeemed.
pub open spec fn redeemed(t: Ticket) -> Ticket {
    Ticket { used: true, ..t }
}

impl EventManager {
    /// The count matches the recorded tickets, and ticket addresses are
    /// unique.
    pub open spec fn wf(self) -> bool {
        &&& self.ticket_count == self.tickets@.len()
        &&& forall|i: int, j: int|
            0 <= i < self.tickets@.len() && 0 <= j < self.tickets@.len() && i != j
                ==> (#[trigger] self.tickets@[i]).address != (#[trigger] self.tickets@[j]).address
    }

    /// Whether a ticket at `address` is recorded.
    pub open spec fn holds(self, address: Address) -> bool {
        exists|i: int| 0 <= i < self.tickets@.len() && (#[trigger] self.tickets@[i]).address == address
    }

    /// Index of the ticket at `address`; meaningful where `holds(address)`.
    pub open spec fn index_of(self, address: Address) -> int {
        choose|i: int| 0 <= i < self.tickets@.len() && (#[trigger] self.tickets@[i]).address == address
    }

    /// What redeeming the ticket at `address` returns.
    pub open spec fn redeem_result(self, address: Address) -> Result<(), EventError> {
        if !self.holds(address) {
            Err(EventError::InvalidTicket)
        } else if self.tickets@[self.index_of(address)].used {
            Err(EventError::TicketAlreadyUsed)
        } else {
            Ok(())
        }
    }

    /// The recorded tickets once the ticket at `address` is redeemed.
    pub open spec fn tickets_after_redeem(self, address: Address) -> Seq<Ticket> {
        let i = self.index_of(address);
        self.tickets@.update(i, redeemed(self.tickets@[i]))
    }
}

impl EventManager {
    /// Whether the ledger is well formed (see `wf`), as read back from
    /// storage.
    pub fn is_well_formed(&self) -> (r: bool)
        ensures
            r == self.wf(),
    {
        if self.ticket_count != self.tickets.len() as u64 {
            return false;
        }
        let mut i: usize = 0;
        while i < self.tickets.len()
            invariant
                self.ticket_count == self.tickets@.len(),
                i <= self.tickets@.len(),
                forall|x: int, y: int|
                    0 <= x < i && 0 <= y < self.tickets@.len() && x != y ==> (
                    #[trigger] self.tickets@[x]).address != (#[trigger] self.tickets@[y]).address,
            decreases self.tickets@.len() - i,
        {
            let mut j: usize = 0;
            while j < self.tickets.len()
                invariant
                    self.ticket_count == self.tickets@.len(),
                    i < self.tickets@.len(),
                    j <= self.tickets@.len(),
                    forall|x: int, y: int|
                        0 <= x < i && 0 <= y < self.tickets@.len() && x != y ==> (
                        #[trigger] self.tickets@[x]).address != (#[trigger] self.tickets@[y]).address,
                    forall|y: int|
                        0 <= y < j && y != i ==> self.tickets@[i as int].address != (
                        #[trigger] self.tickets@[y]).address,
                decreases self.tickets@.len() - j,
            {
                if j != i && self.tickets[i].address == self.tickets[j].address {
                    return false;
                }
                j = j + 1;
            }
            i = i + 1;
        }
        true
    }
}

/// A ticket ledger with no tickets, administered by `authority`.
pub fn initialize(authority: Address) -> (r: EventManager)
    ensures
        r.wf(),
        r.authority == authority,
        r.tickets@.len() == 0,
{
    EventManager { authority, ticket_count: 0, tickets: Vec::new() }
}

/// Index of the ticket at `address`, or `None`.
fn find_ticket(manager: &EventManager, address: Address) -> (r: Option<usize>)
    requires
        manager.wf(),
    ensures
        match r {
            Some(i) => manager.holds(address) && i == manager.index_of(address),
            None => !manager.holds(address),
        },
{
    let mut i: usize = 0;
    while i < manager.tickets.len()
        invariant
            manager.wf(),
            i <= manager.tickets@.len(),
            forall|k: int| 0 <= k < i ==> (#[trigger] manager.tickets@[k]).address != address,
        decreases manager.tickets@.len() - i,
    {
        if manager.tickets[i].address == address {
            proof {
                assert(manager.holds(address));
                let j = manager.index_of(address);
                assert(manager.tickets@[j].address == manager.tickets@[i as int].address);
            }
            return Some(i);
        }
        i = i + 1;
    }
    None
}

/// Records a new, unused ticket at `address`, bought by `buyer` for the event
/// at `event`, with sequence number `number`.
///
/// Fails with `DuplicateTicket`, changing nothing, if a ticket at that
/// address is already recorded.
pub fn create_ticket(
    manager: &mut EventManager,
    address: Address,
    buyer: Address,
    event: Address,
    number: u64,
) -> (r: Result<(), EventError>)
    requires
        old(manager).wf(),
        old(manager).ticket_count < u64::MAX,
    ensures
        final(manager).wf(),
        r is Err <==> old(manager).holds(address),
        r is Err ==> r->Err_0 == EventError::DuplicateTicket && *final(manager) == *old(manager),
        r is Ok ==> {
            &&& final(manager).tickets@ == old(manager).tickets@.push(
                (Ticket { address, buyer, event, number, used: false }),
            )
            &&& final(manager).ticket_count == old(manager).ticket_count + 1
            &&& final(manager).authority == old(manager).authority
            &&& final(manager).holds(address)
        },
{
    if find_ticket(manager, address).is_some() {
        return Err(EventError::DuplicateTicket);
    }
    manager.tickets.push(Ticket { address, buyer, event, number, used: false });
    manager.ticket_count = manager.ticket_count + 1;
    assert(manager.tickets@[manager.tickets@.len() - 1].address == address);
    Ok(())
}

/// Redeems the ticket at `address`, marking it used.
///
/// Fails with `InvalidTicket` if no ticket at that address is recorded, and
/// with `TicketAlreadyUsed` if it has been redeemed before; on failure
/// nothing changes.
pub fn redeem_ticket(manager: &mut EventManager, address: Address) -> (r: Result<(), EventError>)
    requires
        old(manager).wf(),
    ensures
        final(manager).wf(),
        r == old(manager).redeem_result(address),
        r is Ok ==> final(manager).tickets@ == old(manager).tickets_after_redeem(address)
            && final(manager).ticket_count == old(manager).ticket_count && final(manager).authority
            == old(manager).authority,
        r is Err ==> *final(manager) == *old(manager),
{
    let i = match find_ticket(manager, address) {
        Some(i) => i,
        None => {
            return Err(EventError::InvalidTicket);
        },
    };
    let mut ticket = manager.tickets[i];
    if ticket.used {
        return Err(EventError::TicketAlreadyUsed);
    }
    ticket.used = true;
    manager.tickets.set(i, ticket);
    Ok(())
}

/// Redeeming the same unused ticket twice: the first call succeeds and the
/// second fails with `TicketAlreadyUsed`.
pub proof fn lemma_redeem_twice(first: EventManager, second: EventManager, address: Address)
    requires
        first.wf(),
        first.holds(address),
        !first.tickets@[first.index_of(address)].used,
        second.tickets@ == first.tickets_after_redeem(address),
    ensures
        first.redeem_result(address) is Ok,
        second.redeem_result(address) == Err::<(), EventError>(EventError::TicketAlreadyUsed),
{
    let i = first.index_of(address);
    assert(second.tickets@[i].address == address);
    assert(second.holds(address));
    let j = second.index_of(address);
    if j != i {
        assert(first.tickets@[j].address == second.tickets@[j].address);
    }
}

} // verus!
