use vstd::prelude::*;
use crate::address::Address;
use crate::errors::RegistryError;
use crate::events_registry::{EventStatus, EventsRegistry, MAX_EVENTS_PER_CATEGORY};
use crate::text::{byte_len, fits};

verus! {

/// Number of organization slots in the registry.
pub const MAX_ORGANIZATIONS: usize = 3;

/// Longest organization name, in bytes.
pub const MAX_ORGANIZATION_NAME_LEN: usize = 50;

/// Longest organization description, in bytes.
pub const MAX_DESCRIPTION_LEN: usize = 200;

/// The registry of organizations: its authority, the addresses of the
/// registered organizations in order of registration, and the address of the
/// account that holds the event status buckets.
pub struct Registry {
    pub authority: Address,
    /// Number of registered organizations.
    pub organization_count: u64,
    /// Number of organization slots filled.
    pub organization_count_added: u64,
    pub organizations: Vec<Address>,
    pub events_account: Address,
}

/// What the registry records of one organization when it registers.
pub struct OrganizationInfo {
    /// Registration number, counting from zero.
    pub id: u64,
    pub name: String,
    pub owner: Address,
    pub description: String,
    pub kyc_verified: bool,
    pub org_program_id: Address,
}

impl Registry {
    /// Both counters equal the number of filled slots, which is within the
    /// capacity.
    pub open spec fn wf(self) -> bool {
        &&& self.organizations@.len() <= MAX_ORGANIZATIONS
        &&& self.organization_count_added == self.organizations@.len()
        &&& self.organization_count == self.organization_count_added
    }

    /// Whether the registry is well formed (see `wf`), as read back from
    /// storage.
    pub fn is_well_formed(&self) -> (r: bool)
        ensures
            r == self.wf(),
    {
        self.organizations.len() <= MAX_ORGANIZATIONS && self.organization_count_added
            == self.organizations.len() as u64 && self.organization_count
            == self.organization_count_added
    }
}

/// Whether a registration with this name and description passes validation.
pub open spec fn valid_registration(name: Seq<char>, description: Seq<char>) -> bool {
    byte_len(name) <= MAX_ORGANIZATION_NAME_LEN && byte_len(description) <= MAX_DESCRIPTION_LEN
}

/// A new registry with no organizations, administered by `authority`. Its
/// events account is not set yet.
pub fn initialize(authority: Address) -> (r: Registry)
    ensures
        r.wf(),
        r.authority == authority,
        r.organizations@.len() == 0,
        r.events_account.is_zero(),
{
    Registry {
        authority,
        organization_count: 0,
        organization_count_added: 0,
        organizations: Vec::new(),
        events_account: Address::zero(),
    }
}

/// Sets up the event status buckets, stored at `events_account`, and links
/// them from the registry. Only the registry authority may do so.
pub fn initialize_events(registry: &mut Registry, signer: Address, events_account: Address) -> (r:
    Result<EventsRegistry, RegistryError>)
    requires
        old(registry).wf(),
    ensures
        final(registry).wf(),
        signer != old(registry).authority ==> r is Err && r->Err_0 == RegistryError::Unauthorized
            && *final(registry) == *old(registry),
        signer == old(registry).authority ==> r is Ok && r->Ok_0.wf() && r->Ok_0.upcoming_events@.len() == 0
            && r->Ok_0.ongoing_events@.len() == 0 && r->Ok_0.finished_events@.len() == 0 && final(registry).events_account
            == events_account && final(registry).authority == old(registry).authority
            && final(registry).organizations == old(registry).organizations
            && final(registry).organization_count == old(registry).organization_count
            && final(registry).organization_count_added == old(registry).organization_count_added,
{
    if signer != registry.authority {
        return Err(RegistryError::Unauthorized);
    }
    registry.events_account = events_account;
    Ok(EventsRegistry::new())
}

/// Registers the organization stored at `organization`, owned by `owner`, in
/// the next free slot of the registry.
///
/// Fails with `RegistryFull` when every slot is taken, whatever the name and
/// description; otherwise with `NameTooLong` if the name takes more than 50
/// bytes, then with `DescriptionTooLong` if the description takes more than
/// 200 bytes. On failure the registry is unchanged. On success the new
/// organization gets the registration number `organization_count` had, and
/// both counters grow by one.
pub fn register_organization(
    registry: &mut Registry,
    owner: Address,
    organization: Address,
    name: String,
    description: String,
) -> (r: Result<OrganizationInfo, RegistryError>)
    requires
        old(registry).wf(),
    ensures
        final(registry).wf(),
        old(registry).organizations@.len() >= MAX_ORGANIZATIONS ==> r is Err && r->Err_0
            == RegistryError::RegistryFull,
        old(registry).organizations@.len() < MAX_ORGANIZATIONS && byte_len(name@)
            > MAX_ORGANIZATION_NAME_LEN ==> r is Err && r->Err_0 == RegistryError::NameTooLong,
        old(registry).organizations@.len() < MAX_ORGANIZATIONS && byte_len(name@)
            <= MAX_ORGANIZATION_NAME_LEN && byte_len(description@) > MAX_DESCRIPTION_LEN ==> r is Err
            && r->Err_0 == RegistryError::DescriptionTooLong,
        r is Ok <==> old(registry).organizations@.len() < MAX_ORGANIZATIONS && valid_registration(
            name@,
            description@,
        ),
        r is Err ==> *final(registry) == *old(registry),
        r is Ok ==> {
            let info = r->Ok_0;
            &&& info.id == old(registry).organization_count
            &&& info.name@ == name@
            &&& info.owner == owner
            &&& info.description@ == description@
            &&& info.kyc_verified
            &&& info.org_program_id.is_zero()
            &&& final(registry).organizations@ == old(registry).organizations@.push(organization)
            &&& final(registry).organization_count == old(registry).organization_count + 1
            &&& final(registry).organization_count_added == old(registry).organization_count_added
                + 1
            &&& final(registry).authority == old(registry).authority
            &&& final(registry).events_account == old(registry).events_account
        },
{
    if registry.organizations.len() >= MAX_ORGANIZATIONS {
        return Err(RegistryError::RegistryFull);
    }
    if !fits(&name, MAX_ORGANIZATION_NAME_LEN) {
        return Err(RegistryError::NameTooLong);
    }
    if !fits(&description, MAX_DESCRIPTION_LEN) {
        return Err(RegistryError::DescriptionTooLong);
    }
    let info = OrganizationInfo {
        id: registry.organization_count,
        name,
        owner,
        description,
        kyc_verified: true,
        org_program_id: Address::zero(),
    };
    registry.organizations.push(organization);
    registry.organization_count_added = registry.organization_count_added + 1;
    registry.organization_count = registry.organization_count + 1;
    Ok(info)
}

/// Lists a new event under `status`, on behalf of the registry authority.
///
/// Fails with `Unauthorized` if `signer` is not the registry authority;
/// otherwise it is `EventsRegistry::list_event`.
pub fn list_event(
    registry: &Registry,
    events: &mut EventsRegistry,
    signer: Address,
    event_id: Address,
    status: EventStatus,
) -> (r: Result<(), RegistryError>)
    requires
        old(events).wf(),
    ensures
        final(events).wf(),
        signer != registry.authority ==> r is Err && r->Err_0 == RegistryError::Unauthorized,
        signer == registry.authority && old(events).status_of(event_id) is Some ==> r is Err
            && r->Err_0 == RegistryError::EventAlreadyListed,
        signer == registry.authority && old(events).status_of(event_id) is None && old(events).bucket(
            status,
        ).len() >= MAX_EVENTS_PER_CATEGORY ==> r is Err && r->Err_0 == RegistryError::CategoryFull,
        r is Ok <==> signer == registry.authority && old(events).status_of(event_id) is None && old(
            events).bucket(status).len() < MAX_EVENTS_PER_CATEGORY,
        r is Ok ==> old(events).is_listing_of(*final(events), event_id, status),
        r is Err ==> *final(events) == *old(events),
{
    if signer != registry.authority {
        return Err(RegistryError::Unauthorized);
    }
    events.list_event(event_id, status)
}

/// Moves a listed event to the bucket of `new_status`, on behalf of the
/// registry authority.
///
/// Fails with `Unauthorized` if `signer` is not the registry authority;
/// otherwise it is `EventsRegistry::move_event`.
pub fn update_event_status(
    registry: &Registry,
    events: &mut EventsRegistry,
    signer: Address,
    event_id: Address,
    new_status: EventStatus,
) -> (r: Result<(), RegistryError>)
    requires
        old(events).wf(),
    ensures
        final(events).wf(),
        signer != registry.authority ==> r is Err && r->Err_0 == RegistryError::Unauthorized,
        signer == registry.authority && old(events).status_of(event_id) is None ==> r is Err
            && r->Err_0 == RegistryError::EventNotFound,
        signer == registry.authority && old(events).status_of(event_id) is Some && !old(events).has_room_for_move(event_id, new_status) ==> r is Err && r->Err_0
            == RegistryError::CategoryFull,
        r is Ok <==> signer == registry.authority && old(events).status_of(event_id) is Some && old(events).has_room_for_move(event_id, new_status),
        r is Ok ==> old(events).is_move_of(*final(events), event_id, new_status),
        r is Err ==> *final(events) == *old(events),
{
    if signer != registry.authority {
        return Err(RegistryError::Unauthorized);
    }
    events.move_event(event_id, new_status)
}

} // verus!
