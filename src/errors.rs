use vstd::prelude::*;

verus! {

/// Failures of the organization registry and of the event status buckets.
#[derive(Clone, Copy, Debug, PartialEq, Eq, Structural)]
pub enum RegistryError {
    /// The organization name is longer than 50 bytes.
    NameTooLong,
    /// The organization description is longer than 200 bytes.
    DescriptionTooLong,
    /// The event is in none of the status buckets.
    EventNotFound,
    /// The caller is not the registry authority.
    Unauthorized,
    /// The target status bucket is already full.
    CategoryFull,
    /// Every organization slot of the registry is taken.
    RegistryFull,
    /// The event is already listed in one of the status buckets.
    EventAlreadyListed,
}

/// Failures of the organization records and of event creation.
#[derive(Clone, Copy, Debug, PartialEq, Eq, Structural)]
pub enum OrganizationError {
    /// The caller does not own the organization.
    Unauthorized,
    /// The name is longer than 50 bytes.
    NameTooLong,
    /// The metadata URI is longer than 200 bytes.
    UriTooLong,
    /// The event does not end strictly after it starts.
    InvalidTimeRange,
}

/// Failures of ticket sales and ticket redemption.
#[derive(Clone, Copy, Debug, PartialEq, Eq, Structural)]
pub enum EventError {
    /// The ticket has already been redeemed.
    TicketAlreadyUsed,
    /// Every ticket of the event has been sold.
    SoldOut,
    /// The ledger holds no ticket at that address.
    InvalidTicket,
    /// A ticket at that address is already recorded.
    DuplicateTicket,
    /// The sale window of the event has not opened yet.
    EventNotStarted,
    /// The sale window of the event has closed.
    EventEnded,
}

} // verus!
