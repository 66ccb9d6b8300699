//! Bookkeeping core of a multi-party event-ticketing ledger.
//!
//! Organizations register in a bounded registry, create events with a fixed
//! supply of tickets, sell and redeem tickets, and events move between three
//! status buckets. Every operation here is a pure state transition: deriving
//! account addresses, moving funds and minting token metadata are left to the
//! platform that runs these transitions.
pub mod address;
pub mod errors;
pub mod event;
pub mod events_registry;
pub mod organization;
pub mod registry;
pub mod text;
pub mod ticket;
