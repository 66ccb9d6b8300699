use vstd::prelude::*;
use crate::address::Address;
use crate::errors::OrganizationError;
use crate::event::Event;
use crate::events_registry::EventStatus;
use crate::text::{byte_len, fits};

verus! {

/// Longest organization or event name, in bytes.
pub const MAX_NAME_LEN: usize = 50;

/// Longest metadata URI, in bytes.
pub const MAX_URI_LEN: usize = 200;

/// An organization's own record: who owns it, how it presents itself, and
/// how many events it has created.
pub struct Organization {
    /// Address of the organization's account.
    pub address: Address,
    pub owner: Address,
    pub name: String,
    pub metadata_uri: String,
    pub event_count: u64,
}

/// Whether a name and a metadata URI are within their length limits.
pub open spec fn valid_metadata(name: Seq<char>, metadata_uri: Seq<char>) -> bool {
    byte_len(name) <= MAX_NAME_LEN && byte_len(metadata_uri) <= MAX_URI_LEN
}

/// Creates the record of the organization stored at `address`, owned by
/// `owner`, with no events yet.
///
/// Fails with `NameTooLong` if the name takes more than 50 bytes, else with
/// `UriTooLong` if the URI takes more than 200 bytes.
pub fn initialize(owner: Address, address: Address, name: String, metadata_uri: String) -> (r:
    Result<Organization, OrganizationError>)
    ensures
        byte_len(name@) > MAX_NAME_LEN ==> r is Err && r->Err_0 == OrganizationError::NameTooLong,
        byte_len(name@) <= MAX_NAME_LEN && byte_len(metadata_uri@) > MAX_URI_LEN ==> r is Err
            && r->Err_0 == OrganizationError::UriTooLong,
        r is Ok <==> valid_metadata(name@, metadata_uri@),
        r is Ok ==> {
            let org = r->Ok_0;
            &&& org.address == address
            &&& org.owner == owner
            &&& org.name@ == name@
            &&& org.metadata_uri@ == metadata_uri@
            &&& org.event_count == 0
        },
{
    if !fits(&name, MAX_NAME_LEN) {
        return Err(OrganizationError::NameTooLong);
    }
    if !fits(&metadata_uri, MAX_URI_LEN) {
        return Err(OrganizationError::UriTooLong);
    }
    Ok(Organization { address, owner, name, metadata_uri, event_count: 0 })
}

/// Replaces the name, the metadata URI, or both, on behalf of the owner.
///
/// Fails with `Unauthorized` if `signer` is not the owner, else with
/// `NameTooLong` if a new name takes more than 50 bytes, else with
/// `UriTooLong` if a new URI takes more than 200 bytes. A field given as
/// `None` keeps its value. On failure nothing changes.
pub fn update_metadata(
    organization: &mut Organization,
    signer: Address,
    name: Option<String>,
    metadata_uri: Option<String>,
) -> (r: Result<(), OrganizationError>)
    ensures
        signer != old(organization).owner ==> r is Err && r->Err_0
            == OrganizationError::Unauthorized,
        signer == old(organization).owner && name is Some && byte_len(name->0@) > MAX_NAME_LEN
            ==> r is Err && r->Err_0 == OrganizationError::NameTooLong,
        signer == old(organization).owner && (name is Some ==> byte_len(name->0@) <= MAX_NAME_LEN)
            && metadata_uri is Some && byte_len(metadata_uri->0@) > MAX_URI_LEN ==> r is Err
            && r->Err_0 == OrganizationError::UriTooLong,
        r is Ok <==> signer == old(organization).owner && (name is Some ==> byte_len(name->0@)
            <= MAX_NAME_LEN) && (metadata_uri is Some ==> byte_len(metadata_uri->0@)
            <= MAX_URI_LEN),
        r is Err ==> *final(organization) == *old(organization),
        r is Ok ==> {
            &&& final(organization).name@ == match name {
                Some(n) => n@,
                None => old(organization).name@,
            }
            &&& final(organization).metadata_uri@ == match metadata_uri {
                Some(u) => u@,
                None => old(organization).metadata_uri@,
            }
            &&& final(organization).address == old(organization).address
            &&& final(organization).owner == old(organization).owner
            &&& final(organization).event_count == old(organization).event_count
        },
{
    if signer != organization.owner {
        return Err(OrganizationError::Unauthorized);
    }
    match &name {
        Some(n) => {
            if !fits(n, MAX_NAME_LEN) {
                return Err(OrganizationError::NameTooLong);
            }
        },
        None => {},
    }
    match &metadata_uri {
        Some(u) => {
            if !fits(u, MAX_URI_LEN) {
                return Err(OrganizationError::UriTooLong);
            }
        },
        None => {},
    }
    match name {
        Some(n) => {
            organization.name = n;
        },
        None => {},
    }
    match metadata_uri {
        Some(u) => {
            organization.metadata_uri = u;
        },
        None => {},
    }
    Ok(())
}

/// Creates an event of the organization, stored at `event_address`, on
/// behalf of the owner.
///
/// Fails with `Unauthorized` if `signer` is not the owner, else with
/// `NameTooLong` or `UriTooLong` as for the organization's own metadata, else
/// with `InvalidTimeRange` unless the event ends strictly after it starts.
/// The new event is upcoming, has every ticket still for sale, and is
/// numbered by the organization's event count, which then grows by one.
pub fn create_event(
    organization: &mut Organization,
    signer: Address,
    event_address: Address,
    name: String,
    metadata_uri: String,
    start_time: i64,
    end_time: i64,
    total_tickets: u64,
    ticket_price: u64,
) -> (r: Result<Event, OrganizationError>)
    requires
        old(organization).event_count < u64::MAX,
    ensures
        signer != old(organization).owner ==> r is Err && r->Err_0
            == OrganizationError::Unauthorized,
        signer == old(organization).owner && byte_len(name@) > MAX_NAME_LEN ==> r is Err
            && r->Err_0 == OrganizationError::NameTooLong,
        signer == old(organization).owner && byte_len(name@) <= MAX_NAME_LEN && byte_len(
            metadata_uri@,
        ) > MAX_URI_LEN ==> r is Err && r->Err_0 == OrganizationError::UriTooLong,
        signer == old(organization).owner && valid_metadata(name@, metadata_uri@) && end_time
            <= start_time ==> r is Err && r->Err_0 == OrganizationError::InvalidTimeRange,
        r is Ok <==> signer == old(organization).owner && valid_metadata(name@, metadata_uri@)
            && start_time < end_time,
        r is Err ==> *final(organization) == *old(organization),
        r is Ok ==> {
            let event = r->Ok_0;
            &&& event.wf()
            &&& event.address == event_address
            &&& event.id == old(organization).event_count
            &&& event.organization == old(organization).address
            &&& event.name@ == name@
            &&& event.metadata_uri@ == metadata_uri@
            &&& event.start_time == start_time
            &&& event.end_time == end_time
            &&& event.total_tickets == total_tickets
            &&& event.remaining_tickets == total_tickets
            &&& event.tickets_minted == 0
            &&& event.ticket_price == ticket_price
            &&& event.status == EventStatus::Upcoming
            &&& final(organization).event_count == old(organization).event_count + 1
            &&& final(organization).address == old(organization).address
            &&& final(organization).owner == old(organization).owner
            &&& final(organization).name == old(organization).name
            &&& final(organization).metadata_uri == old(organization).metadata_uri
        },
{
    if signer != organization.owner {
        return Err(OrganizationError::Unauthorized);
    }
    if !fits(&name, MAX_NAME_LEN) {
        return Err(OrganizationError::NameTooLong);
    }
    if !fits(&metadata_uri, MAX_URI_LEN) {
        return Err(OrganizationError::UriTooLong);
    }
    if end_time <= start_time {
        return Err(OrganizationError::InvalidTimeRange);
    }
    let event = Event {
        address: event_address,
        id: organization.event_count,
        organization: organization.address,
        name,
        metadata_uri,
        start_time,
        end_time,
        total_tickets,
        remaining_tickets: total_tickets,
        ticket_price,
        tickets_minted: 0,
        status: EventStatus::Upcoming,
    };
    organization.event_count = organization.event_count + 1;
    Ok(event)
}

} // verus!
