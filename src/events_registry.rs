use vstd::prelude::*;
use crate::address::Address;
use crate::errors::RegistryError;

verus! {

/// Capacity of each status bucket.
pub const MAX_EVENTS_PER_CATEGORY: usize = 3;

/// Lifecycle status of an event; each status has its own bucket.
#[derive(Clone, Copy, Debug, PartialEq, Eq, Structural)]
pub enum EventStatus {
    Upcoming,
    Ongoing,
    Finished,
}

/// The three status buckets of listed events. Each bucket keeps its events
/// in the order in which they entered it, and an event is listed in at most
/// one bucket.
pub struct EventsRegistry {
    pub upcoming_events: Vec<Address>,
    pub ongoing_events: Vec<Address>,
    pub finished_events: Vec<Address>,
}

/// A bucket with the first occurrence of `id` taken out, other events keeping
/// their order.
pub open spec fn without(s: Seq<Address>, id: Address) -> Seq<Address> {
    s.remove_value(id)
}

/// Index of the first occurrence of `id` in `s`, or `None`.
fn find_event(s: &Vec<Address>, id: Address) -> (r: Option<usize>)
    ensures
        match r {
            Some(i) => i < s@.len() && s@[i as int] == id && s@.index_of_first(id) == Some(
                i as int,
            ),
            None => !s@.contains(id),
        },
{
    let mut i: usize = 0;
    while i < s.len()
        invariant
            i <= s@.len(),
            forall|k: int| 0 <= k < i ==> s@[k] != id,
        decreases s@.len() - i,
    {
        if s[i] == id {
            proof {
                s@.index_of_first_ensures(id);
            }
            return Some(i);
        }
        i = i + 1;
    }
    None
}

/// Removing the only occurrence of `id` from a bucket without duplicates
/// leaves a shorter bucket without duplicates that no longer holds `id` and
/// holds nothing new.
proof fn lemma_without(s: Seq<Address>, id: Address)
    requires
        s.no_duplicates(),
        s.contains(id),
    ensures
        without(s, id).len() == s.len() - 1,
        without(s, id).no_duplicates(),
        !without(s, id).contains(id),
        forall|x: Address| #[trigger] without(s, id).contains(x) ==> s.contains(x),
{
    s.index_of_first_ensures(id);
    let i = s.index_of_first(id).unwrap();
    s.remove_ensures(i);
    let t = without(s, id);
    assert forall|x: Address| #[trigger] t.contains(x) implies s.contains(x) && (x != id) by {
        let k = choose|k: int| 0 <= k < t.len() && t[k] == x;
        if k < i {
            assert(s[k] == x);
        } else {
            assert(s[k + 1] == x);
        }
    }
    assert forall|a: int, b: int| 0 <= a < t.len() && 0 <= b < t.len() && a != b implies t[a]
        != t[b] by {
        let sa = if a < i { a } else { a + 1 };
        let sb = if b < i { b } else { b + 1 };
        assert(t[a] == s[sa]);
        assert(t[b] == s[sb]);
    }
}

/// Whether no event occurs twice in `s`.
fn has_no_duplicates(s: &Vec<Address>) -> (r: bool)
    ensures
        r == s@.no_duplicates(),
{
    let mut i: usize = 0;
    while i < s.len()
        invariant
            i <= s@.len(),
            forall|x: int, y: int| 0 <= x < i && 0 <= y < s@.len() && x != y ==> s@[x] != s@[y],
        decreases s@.len() - i,
    {
        let mut j: usize = 0;
        while j < s.len()
            invariant
                i < s@.len(),
                j <= s@.len(),
                forall|x: int, y: int| 0 <= x < i && 0 <= y < s@.len() && x != y ==> s@[x] != s@[y],
                forall|y: int| 0 <= y < j && y != i ==> s@[i as int] != s@[y],
            decreases s@.len() - j,
        {
            if j != i && s[i] == s[j] {
                return false;
            }
            j = j + 1;
        }
        i = i + 1;
    }
    true
}

/// Whether no event occurs both in `a` and in `b`.
fn are_disjoint(a: &Vec<Address>, b: &Vec<Address>) -> (r: bool)
    ensures
        r == a@.disjoint(b@),
{
    let mut i: usize = 0;
    while i < a.len()
        invariant
            i <= a@.len(),
            forall|x: int, y: int| 0 <= x < i && 0 <= y < b@.len() ==> a@[x] != b@[y],
        decreases a@.len() - i,
    {
        let mut j: usize = 0;
        while j < b.len()
            invariant
                i < a@.len(),
                j <= b@.len(),
                forall|x: int, y: int| 0 <= x < i && 0 <= y < b@.len() ==> a@[x] != b@[y],
                forall|y: int| 0 <= y < j ==> a@[i as int] != b@[y],
            decreases b@.len() - j,
        {
            if a[i] == b[j] {
                return false;
            }
            j = j + 1;
        }
        i = i + 1;
    }
    true
}

/// Disjointness does not depend on the order of the two buckets.
proof fn lemma_disjoint_symmetric(a: Seq<Address>, b: Seq<Address>)
    ensures
        a.disjoint(b) <==> b.disjoint(a),
{
    if a.disjoint(b) {
        assert forall|i: int, j: int| 0 <= i < b.len() && 0 <= j < a.len() implies b[i] != a[j] by {
            assert(a[j] != b[i]);
        }
    }
    if b.disjoint(a) {
        assert forall|i: int, j: int| 0 <= i < a.len() && 0 <= j < b.len() implies a[i] != b[j] by {
            assert(b[j] != a[i]);
        }
    }
}

/// A bucket whose events all occur in `b` is disjoint from every bucket
/// that `b` is disjoint from.
proof fn lemma_disjoint_of_subset(a: Seq<Address>, b: Seq<Address>, c: Seq<Address>)
    requires
        forall|x: Address| #[trigger] a.contains(x) ==> b.contains(x),
        b.disjoint(c),
    ensures
        a.disjoint(c),
        c.disjoint(a),
{
    assert forall|i: int, j: int| 0 <= i < a.len() && 0 <= j < c.len() implies a[i] != c[j] by {
        assert(a.contains(a[i]));
        let k = choose|k: int| 0 <= k < b.len() && b[k] == a[i];
        assert(b[k] != c[j]);
    }
}

impl EventsRegistry {
    /// The bucket that holds the events of the given status.
    pub open spec fn bucket(self, status: EventStatus) -> Seq<Address> {
        match status {
            EventStatus::Upcoming => self.upcoming_events@,
            EventStatus::Ongoing => self.ongoing_events@,
            EventStatus::Finished => self.finished_events@,
        }
    }

    /// No bucket is over capacity, no bucket lists an event twice, and no
    /// event is listed in two buckets.
    pub open spec fn wf(self) -> bool {
        &&& forall|s: EventStatus| #[trigger] self.bucket(s).len() <= MAX_EVENTS_PER_CATEGORY
        &&& forall|s: EventStatus| #[trigger] self.bucket(s).no_duplicates()
        &&& forall|s: EventStatus, t: EventStatus|
            s != t ==> (#[trigger] self.bucket(s)).disjoint(#[trigger] self.bucket(t))
    }

    /// The status under which `id` is listed, if any.
    pub open spec fn status_of(self, id: Address) -> Option<EventStatus> {
        if self.upcoming_events@.contains(id) {
            Some(EventStatus::Upcoming)
        } else if self.ongoing_events@.contains(id) {
            Some(EventStatus::Ongoing)
        } else if self.finished_events@.contains(id) {
            Some(EventStatus::Finished)
        } else {
            None
        }
    }

    /// Number of buckets that list `id`.
    pub open spec fn buckets_holding(self, id: Address) -> nat {
        (if self.upcoming_events@.contains(id) { 1nat } else { 0nat }) + (if self.ongoing_events@.contains(
            id,
        ) {
            1nat
        } else {
            0nat
        }) + (if self.finished_events@.contains(id) { 1nat } else { 0nat })
    }

    /// Number of events listed over all three buckets.
    pub open spec fn total_listed(self) -> nat {
        self.upcoming_events@.len() + self.ongoing_events@.len() + self.finished_events@.len()
    }

    /// Bucket `s` once `id` has left bucket `from` and joined the end of
    /// bucket `to`.
    pub open spec fn bucket_after_move(
        self,
        s: EventStatus,
        id: Address,
        from: EventStatus,
        to: EventStatus,
    ) -> Seq<Address> {
        let rest = if s == from { without(self.bucket(s), id) } else { self.bucket(s) };
        if s == to { rest.push(id) } else { rest }
    }

    /// `after` is `self` with `id` taken from its bucket and appended to the
    /// bucket of `to`.
    pub open spec fn is_move_of(self, after: EventsRegistry, id: Address, to: EventStatus) -> bool {
        let from = self.status_of(id)->0;
        &&& self.status_of(id) is Some
        &&& after.upcoming_events@ == self.bucket_after_move(EventStatus::Upcoming, id, from, to)
        &&& after.ongoing_events@ == self.bucket_after_move(EventStatus::Ongoing, id, from, to)
        &&& after.finished_events@ == self.bucket_after_move(EventStatus::Finished, id, from, to)
    }

    /// `after` is `self` with `id` appended to the bucket of `status`.
    pub open spec fn is_listing_of(self, after: EventsRegistry, id: Address, status: EventStatus) -> bool {
        &&& after.upcoming_events@ == if status == EventStatus::Upcoming {
            self.upcoming_events@.push(id)
        } else {
            self.upcoming_events@
        }
        &&& after.ongoing_events@ == if status == EventStatus::Ongoing {
            self.ongoing_events@.push(id)
        } else {
            self.ongoing_events@
        }
        &&& after.finished_events@ == if status == EventStatus::Finished {
            self.finished_events@.push(id)
        } else {
            self.finished_events@
        }
    }

    /// Whether moving `id` to `to` finds room: the target bucket has a free
    /// slot, or it is the bucket the event leaves.
    pub open spec fn has_room_for_move(self, id: Address, to: EventStatus) -> bool {
        self.status_of(id) == Some(to) || self.bucket(to).len() < MAX_EVENTS_PER_CATEGORY
    }

    /// Three empty buckets.
    pub fn new() -> (r: EventsRegistry)
        ensures
            r.wf(),
            r.upcoming_events@.len() == 0,
            r.ongoing_events@.len() == 0,
            r.finished_events@.len() == 0,
    {
        EventsRegistry {
            upcoming_events: Vec::new(),
            ongoing_events: Vec::new(),
            finished_events: Vec::new(),
        }
    }

    /// Length of the bucket of `status`.
    pub fn count(&self, status: EventStatus) -> (r: usize)
        ensures
            r == self.bucket(status).len(),
    {
        match status {
            EventStatus::Upcoming => self.upcoming_events.len(),
            EventStatus::Ongoing => self.ongoing_events.len(),
            EventStatus::Finished => self.finished_events.len(),
        }
    }

    /// Whether the buckets are well formed (see `wf`), as read back from
    /// storage.
    pub fn is_well_formed(&self) -> (r: bool)
        ensures
            r == self.wf(),
    {
        let u = &self.upcoming_events;
        let o = &self.ongoing_events;
        let f = &self.finished_events;
        let r = u.len() <= MAX_EVENTS_PER_CATEGORY && o.len() <= MAX_EVENTS_PER_CATEGORY && f.len()
            <= MAX_EVENTS_PER_CATEGORY && has_no_duplicates(u) && has_no_duplicates(o)
            && has_no_duplicates(f) && are_disjoint(u, o) && are_disjoint(u, f) && are_disjoint(o, f);
        proof {
            let up = EventStatus::Upcoming;
            let on = EventStatus::Ongoing;
            let fi = EventStatus::Finished;
            if r {
                assert forall|s: EventStatus, t: EventStatus|
                    s != t implies (#[trigger] self.bucket(s)).disjoint(#[trigger] self.bucket(t)) by {
                    lemma_disjoint_symmetric(u@, o@);
                    lemma_disjoint_symmetric(u@, f@);
                    lemma_disjoint_symmetric(o@, f@);
                }
            } else {
                if self.wf() {
                    assert(self.bucket(up).len() <= MAX_EVENTS_PER_CATEGORY);
                    assert(self.bucket(on).len() <= MAX_EVENTS_PER_CATEGORY);
                    assert(self.bucket(fi).len() <= MAX_EVENTS_PER_CATEGORY);
                    assert(self.bucket(up).no_duplicates());
                    assert(self.bucket(on).no_duplicates());
                    assert(self.bucket(fi).no_duplicates());
                    assert(self.bucket(up).disjoint(self.bucket(on)));
                    assert(self.bucket(up).disjoint(self.bucket(fi)));
                    assert(self.bucket(on).disjoint(self.bucket(fi)));
                }
            }
        }
        r
    }

    /// Where `id` is listed: its status and its index in that bucket, looking
    /// through the upcoming, ongoing and finished buckets in that order.
    fn locate(&self, id: Address) -> (r: Option<(EventStatus, usize)>)
        ensures
            match r {
                Some((s, i)) => {
                    &&& self.status_of(id) == Some(s)
                    &&& i < self.bucket(s).len()
                    &&& self.bucket(s)[i as int] == id
                    &&& self.bucket(s).index_of_first(id) == Some(i as int)
                },
                None => self.status_of(id) is None,
            },
    {
        match find_event(&self.upcoming_events, id) {
            Some(i) => {
                return Some((EventStatus::Upcoming, i));
            },
            None => {},
        }
        match find_event(&self.ongoing_events, id) {
            Some(i) => {
                return Some((EventStatus::Ongoing, i));
            },
            None => {},
        }
        match find_event(&self.finished_events, id) {
            Some(i) => Some((EventStatus::Finished, i)),
            None => None,
        }
    }

    /// Appends `id` to the bucket of `status`.
    fn push_to(&mut self, status: EventStatus, id: Address)
        ensures
            forall|s: EventStatus| #[trigger]
                final(self).bucket(s) == if s == status {
                    old(self).bucket(s).push(id)
                } else {
                    old(self).bucket(s)
                },
    {
        match status {
            EventStatus::Upcoming => self.upcoming_events.push(id),
            EventStatus::Ongoing => self.ongoing_events.push(id),
            EventStatus::Finished => self.finished_events.push(id),
        }
    }

    /// Takes out the event at `index` of the bucket of `status`; the events
    /// after it shift one place towards the front.
    fn remove_from(&mut self, status: EventStatus, index: usize)
        requires
            index < old(self).bucket(status).len(),
        ensures
            forall|s: EventStatus| #[trigger]
                final(self).bucket(s) == if s == status {
                    old(self).bucket(s).remove(index as int)
                } else {
                    old(self).bucket(s)
                },
    {
        match status {
            EventStatus::Upcoming => {
                self.upcoming_events.remove(index);
            },
            EventStatus::Ongoing => {
                self.ongoing_events.remove(index);
            },
            EventStatus::Finished => {
                self.finished_events.remove(index);
            },
        }
    }

    /// Lists a new event under `status`, at the end of its bucket.
    ///
    /// Fails with `EventAlreadyListed` if the event is in any bucket, else
    /// with `CategoryFull` if the bucket of `status` is full; on failure
    /// nothing changes.
    pub fn list_event(&mut self, id: Address, status: EventStatus) -> (r: Result<(), RegistryError>)
        requires
            old(self).wf(),
        ensures
            final(self).wf(),
            old(self).status_of(id) is Some ==> r == Err::<(), RegistryError>(
                RegistryError::EventAlreadyListed,
            ),
            old(self).status_of(id) is None && old(self).bucket(status).len()
                >= MAX_EVENTS_PER_CATEGORY ==> r == Err::<(), RegistryError>(
                RegistryError::CategoryFull,
            ),
            r is Ok <==> old(self).status_of(id) is None && old(self).bucket(status).len()
                < MAX_EVENTS_PER_CATEGORY,
            r is Ok ==> old(self).is_listing_of(*final(self), id, status),
            r is Err ==> *final(self) == *old(self),
    {
        if self.locate(id).is_some() {
            return Err(RegistryError::EventAlreadyListed);
        }
        if self.count(status) >= MAX_EVENTS_PER_CATEGORY {
            return Err(RegistryError::CategoryFull);
        }
        let ghost before = *self;
        self.push_to(status, id);
        proof {
            assert(self.bucket(EventStatus::Upcoming) == self.upcoming_events@);
            assert(self.bucket(EventStatus::Ongoing) == self.ongoing_events@);
            assert(self.bucket(EventStatus::Finished) == self.finished_events@);
            assert forall|s: EventStatus, t: EventStatus| s != t implies (#[trigger] self.bucket(
                s,
            )).disjoint(#[trigger] self.bucket(t)) by {
                assert(before.bucket(s).disjoint(before.bucket(t)));
                assert(!before.bucket(s).contains(id));
                assert(!before.bucket(t).contains(id));
                if s == status {
                    assert(forall|k: int| 0 <= k < before.bucket(s).len() ==> self.bucket(s)[k]
                        == before.bucket(s)[k]);
                }
                if t == status {
                    assert(forall|k: int| 0 <= k < before.bucket(t).len() ==> self.bucket(t)[k]
                        == before.bucket(t)[k]);
                }
            }
            assert(before.bucket(status).no_duplicates());
            assert(!before.bucket(status).contains(id));
            assert(self.bucket(status).no_duplicates());
        }
        Ok(())
    }

    /// Moves a listed event to the end of the bucket of `new_status`.
    ///
    /// The event leaves the bucket it is in (the first one holding it, looking
    /// at upcoming, ongoing and finished in that order), and the events after
    /// it keep their order. Any pair of statuses is accepted, including a move
    /// to the status the event already has. Fails with `EventNotFound` if no
    /// bucket lists the event, and with `CategoryFull` if the target bucket
    /// has no free slot once the event has left its own. The move is
    /// transactional: on failure no bucket changes.
    pub fn move_event(&mut self, event_id: Address, new_status: EventStatus) -> (r: Result<
        (),
        RegistryError,
    >)
        requires
            old(self).wf(),
        ensures
            final(self).wf(),
            old(self).status_of(event_id) is None ==> r == Err::<(), RegistryError>(
                RegistryError::EventNotFound,
            ),
            old(self).status_of(event_id) is Some && !old(self).has_room_for_move(
                event_id,
                new_status,
            ) ==> r == Err::<(), RegistryError>(RegistryError::CategoryFull),
            r is Ok <==> old(self).status_of(event_id) is Some && old(self).has_room_for_move(
                event_id,
                new_status,
            ),
            r is Ok ==> old(self).is_move_of(*final(self), event_id, new_status),
            r is Ok ==> forall|s: EventStatus| #[trigger]
                final(self).bucket(s).len() == old(self).bucket(s).len() - (if old(self).status_of(
                    event_id,
                ) == Some(s) {
                    1int
                } else {
                    0int
                }) + (if s == new_status {
                    1int
                } else {
                    0int
                }),
            r is Err ==> *final(self) == *old(self),
    {
        let (from, index) = match self.locate(event_id) {
            Some(found) => found,
            None => {
                return Err(RegistryError::EventNotFound);
            },
        };
        if from != new_status && self.count(new_status) >= MAX_EVENTS_PER_CATEGORY {
            return Err(RegistryError::CategoryFull);
        }
        let ghost before = *self;
        proof {
            lemma_without(before.bucket(from), event_id);
        }
        self.remove_from(from, index);
        let ghost middle = *self;
        self.push_to(new_status, event_id);
        proof {
            assert(self.bucket(EventStatus::Upcoming) == before.bucket_after_move(EventStatus::Upcoming, event_id, from, new_status));
            assert(self.bucket(EventStatus::Ongoing) == before.bucket_after_move(EventStatus::Ongoing, event_id, from, new_status));
            assert(self.bucket(EventStatus::Finished) == before.bucket_after_move(EventStatus::Finished, event_id, from, new_status));
            assert forall|s: EventStatus| !(#[trigger] middle.bucket(s)).contains(event_id) by {
                if s != from {
                    assert(before.bucket(s).disjoint(before.bucket(from)));
                    assert(before.bucket(from).contains(event_id));
                }
            }
            assert forall|s: EventStatus, t: EventStatus|
                s != t implies (#[trigger] self.bucket(s)).disjoint(#[trigger] self.bucket(t)) by {
                assert(before.bucket(s).disjoint(before.bucket(t)));
                if s == from {
                    lemma_disjoint_of_subset(middle.bucket(s), before.bucket(s), before.bucket(t));
                } else if t == from {
                    lemma_disjoint_of_subset(middle.bucket(t), before.bucket(t), before.bucket(s));
                }
                assert(middle.bucket(s).disjoint(middle.bucket(t)));
                assert(!middle.bucket(s).contains(event_id));
                assert(!middle.bucket(t).contains(event_id));
                if s == new_status {
                    assert(forall|k: int| 0 <= k < middle.bucket(s).len() ==> self.bucket(s)[k]
                        == middle.bucket(s)[k]);
                }
                if t == new_status {
                    assert(forall|k: int| 0 <= k < middle.bucket(t).len() ==> self.bucket(t)[k]
                        == middle.bucket(t)[k]);
                }
            }
            assert(middle.bucket(new_status).no_duplicates());
            assert(!middle.bucket(new_status).contains(event_id));
            assert(self.bucket(new_status).no_duplicates());
            assert(forall|s: EventStatus| #[trigger] self.bucket(s).len() <= MAX_EVENTS_PER_CATEGORY);
        }
        Ok(())
    }
}

/// After any successful move, the event is listed in exactly one bucket, the
/// one it was moved to, and the number of listed events over all buckets is
/// unchanged.
pub proof fn lemma_move_keeps_membership(
    before: EventsRegistry,
    after: EventsRegistry,
    event_id: Address,
    new_status: EventStatus,
)
    requires
        before.wf(),
        before.is_move_of(after, event_id, new_status),
    ensures
        after.buckets_holding(event_id) == 1,
        after.status_of(event_id) == Some(new_status),
        after.total_listed() == before.total_listed(),
{
    let from = before.status_of(event_id)->0;
    lemma_without(before.bucket(from), event_id);
    assert forall|s: EventStatus| #[trigger] after.bucket(s) == before.bucket_after_move(
        s,
        event_id,
        from,
        new_status,
    ) by {}
    assert forall|s: EventStatus| s != new_status implies !(#[trigger] after.bucket(s)).contains(event_id) by {
        if s != from {
            assert(before.bucket(s).disjoint(before.bucket(from)));
            assert(before.bucket(from).contains(event_id));
            if before.bucket(s).contains(event_id) {
                let k = choose|k: int| 0 <= k < before.bucket(s).len() && before.bucket(s)[k] == event_id;
                let j = choose|j: int| 0 <= j < before.bucket(from).len() && before.bucket(from)[j] == event_id;
                assert(before.bucket(s)[k] != before.bucket(from)[j]);
            }
        }
    }
    assert(after.bucket(new_status)[after.bucket(new_status).len() - 1] == event_id);
    assert(after.bucket(new_status).contains(event_id));
}

} // verus!
