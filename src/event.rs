use vstd::prelude::*;
use crate::address::Address;
use crate::errors::EventError;
use crate::events_registry::EventStatus;
use crate::ticket::Ticket;

verus! {

/// An event: its sale window, its supply of tickets and what has been sold.
pub struct Event {
    /// Address of the event's account.
    pub address: Address,
    /// Number of the event within its organization, counting from zero.
    pub id: u64,
    /// Address of the organization that holds the event and is paid for it.
    pub organization: Address,
    pub name: String,
    pub metadata_uri: String,
    /// Start of the sale window, in seconds since the Unix epoch.
    pub start_time: i64,
    /// End of the sale window, in seconds since the Unix epoch.
    pub end_time: i64,
    pub total_tickets: u64,
    pub remaining_tickets: u64,
    pub ticket_price: u64,
    pub tickets_minted: u64,
    pub status: EventStatus,
}

/// A transfer of `amount` lamports from `payer` to `payee` that a sale
/// obliges; carrying it out is left to the platform.
#[derive(Clone, Copy, Debug)]
pub struct Payment {
    pub payer: Address,
    pub payee: Address,
    pub amount: u64,
}

/// The outcome of a sale: the new ticket and the payment that buys it.
#[derive(Clone, Copy, Debug)]
pub struct TicketSale {
    pub ticket: Ticket,
    pub payment: Payment,
}

impl Event {
    /// The sale window is not empty, and every ticket is either sold or
    /// still for sale.
    pub open spec fn wf(self) -> bool {
        &&& self.start_time < self.end_time
        &&& self.remaining_tickets + self.tickets_minted == self.total_tickets
    }

    /// Whether the event is well formed (see `wf`), as read back from
    /// storage.
    pub fn is_well_formed(&self) -> (r: bool)
        ensures
            r == self.wf(),
    {
        self.start_time < self.end_time && self.remaining_tickets <= self.total_tickets
            && self.total_tickets - self.remaining_tickets == self.tickets_minted
    }

    /// Sells the next ticket of the event to `buyer`; the ticket is stored
    /// at `ticket_address`, and `now` is the current time.
    ///
    /// Fails with `SoldOut` if no ticket is left, else with `EventNotStarted`
    /// if `now` is before the start, else with `EventEnded` if `now` is after
    /// the end. On failure the event is unchanged. On success one more ticket
    /// is sold and one fewer left; the ticket is numbered by the new count of
    /// sold tickets, is unused, and costs the buyer the ticket price, paid to
    /// the organization.
    pub fn mint_ticket(&mut self, buyer: Address, ticket_address: Address, now: i64) -> (r: Result<
        TicketSale,
        EventError,
    >)
        requires
            old(self).wf(),
        ensures
            final(self).wf(),
            final(self).remaining_tickets + final(self).tickets_minted == final(self).total_tickets,
            old(self).remaining_tickets == 0 ==> r is Err && r->Err_0 == EventError::SoldOut,
            old(self).remaining_tickets > 0 && now < old(self).start_time ==> r is Err && r->Err_0
                == EventError::EventNotStarted,
            old(self).remaining_tickets > 0 && old(self).start_time <= now && now > old(self).end_time ==> r is Err && r->Err_0 == EventError::EventEnded,
            r is Ok <==> old(self).remaining_tickets > 0 && old(self).start_time <= now <= old(self).end_time,
            r is Err ==> *final(self) == *old(self),
            r is Ok ==> {
                let sale = r->Ok_0;
                &&& final(self).tickets_minted == old(self).tickets_minted + 1
                &&& final(self).remaining_tickets == old(self).remaining_tickets - 1
                &&& final(self).total_tickets == old(self).total_tickets
                &&& final(self).address == old(self).address
                &&& final(self).id == old(self).id
                &&& final(self).organization == old(self).organization
                &&& final(self).name == old(self).name
                &&& final(self).metadata_uri == old(self).metadata_uri
                &&& final(self).start_time == old(self).start_time
                &&& final(self).end_time == old(self).end_time
                &&& final(self).ticket_price == old(self).ticket_price
                &&& final(self).status == old(self).status
                &&& sale.ticket.address == ticket_address
                &&& sale.ticket.buyer == buyer
                &&& sale.ticket.event == old(self).address
                &&& sale.ticket.number == final(self).tickets_minted
                &&& !sale.ticket.used
                &&& sale.payment.payer == buyer
                &&& sale.payment.payee == old(self).organization
                &&& sale.payment.amount == old(self).ticket_price
            },
    {
        if self.remaining_tickets == 0 {
            return Err(EventError::SoldOut);
        }
        if now < self.start_time {
            return Err(EventError::EventNotStarted);
        }
        if now > self.end_time {
            return Err(EventError::EventEnded);
        }
        self.tickets_minted = self.tickets_minted + 1;
        self.remaining_tickets = self.remaining_tickets - 1;
        let ticket = Ticket {
            address: ticket_address,
            buyer,
            event: self.address,
            number: self.tickets_minted,
            used: false,
        };
        let payment = Payment { payer: buyer, payee: self.organization, amount: self.ticket_price };
        Ok(TicketSale { ticket, payment })
    }
}

} // verus!
