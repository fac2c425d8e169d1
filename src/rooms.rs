//! The rooms service: queries, mutations that announce each change, and
//! subscriptions to those announcements.
use vstd::prelude::*;
use crate::broker::{Broker, publish_view, is_first_vacant, subscribe_view, drain_view, is_live};
use crate::storage::{Room, Storage};
use crate::id::{parse_id, is_valid_id, id_digits, digits_value};
use vstd::string::StringSliceAdditionalSpecFns;

verus! {

/// What happened to a room.
#[derive(Clone, Copy, PartialEq, Eq, Structural, Debug)]
pub enum MutationType {
    Created,
    Deleted,
}

/// The announcement that a room was created or deleted.
#[derive(Clone, Copy, PartialEq, Eq, Structural, Debug)]
pub struct RoomChanged {
    pub mutation_type: MutationType,
    pub id: usize,
}

impl RoomChanged {
    /// What happened to the room.
    pub fn mutation_type(&self) -> (r: MutationType)
        ensures
            r == self.mutation_type,
    {
        self.mutation_type
    }

    /// The id of the room.
    pub fn id(&self) -> (r: usize)
        ensures
            r == self.id,
    {
        self.id
    }

    /// The room the event speaks of, if it is still stored.
    pub fn room(&self, storage: &Storage) -> (r: Option<Room>)
        ensures
            r is Some == storage@.dom().contains(self.id),
            r is Some ==> r->Some_0@ == storage@[self.id],
    {
        storage.get(self.id)
    }
}

/// Whether a subscription with the optional kind filter `filter` lets `e` through.
pub open spec fn accepts(filter: Option<MutationType>, e: RoomChanged) -> bool {
    match filter {
        Some(m) => e.mutation_type == m,
        None => true,
    }
}

/// The events of `events` that `filter` lets through, in their order.
pub fn filter_events(events: &Vec<RoomChanged>, filter: Option<MutationType>) -> (r: Vec<
    RoomChanged,
>)
    ensures
        r@ == events@.filter(|e: RoomChanged| accepts(filter, e)),
{
    let mut out: Vec<RoomChanged> = Vec::new();
    let mut i: usize = 0;
    while i < events.len()
        invariant
            0 <= i <= events@.len(),
            out@ == events@.subrange(0, i as int).filter(|e: RoomChanged| accepts(filter, e)),
        decreases events.len() - i,
    {
        let e = events[i];
        let keep = match filter {
            Some(m) => e.mutation_type == m,
            None => true,
        };
        proof {
            let pre = events@.subrange(0, i as int);
            assert(events@.subrange(0, i + 1) =~= pre.push(e));
            assert(pre.push(e).drop_last() =~= pre);
            reveal(Seq::filter);
        }
        if keep {
            out.push(e);
        }
        i = i + 1;
    }
    assert(events@.subrange(0, events@.len() as int) =~= events@);
    out
}

/// The root of the queries.
pub struct QueryRoot;

impl QueryRoot {
    /// All stored rooms, by increasing id.
    pub fn rooms(&self, storage: &Storage) -> (r: Vec<Room>)
        requires
            storage.wf(),
        ensures
            forall|i: int, j: int| 0 <= i < j < r@.len() ==> r@[i]@.0 < r@[j]@.0,
            forall|i: int| 0 <= i < r@.len() ==> storage@.dom().contains(#[trigger] r@[i]@.0)
                && storage@[r@[i]@.0] == r@[i]@,
            forall|k: usize| #[trigger] storage@.dom().contains(k) ==> exists|i: int|
                0 <= i < r@.len() && r@[i]@.0 == k,
    {
        storage.all()
    }
}

/// The root of the mutations.
pub struct MutationRoot;

impl MutationRoot {
    /// Stores a new room, announces its creation and returns its id.
    pub fn create_room(
        &self,
        storage: &mut Storage,
        broker: &mut Broker<RoomChanged>,
        name: String,
        author: String,
    ) -> (id: usize)
        requires
            old(storage).wf(),
        ensures
            final(storage).wf(),
            id == old(storage).next_key(),
            !old(storage)@.dom().contains(id),
            old(storage).free_keys().len() == 0 ==> id == old(storage)@.dom().len(),
            final(storage)@ == old(storage)@.insert(id, (id, name@, author@)),
            final(storage).free_keys() == (if old(storage).free_keys().len() == 0 {
                old(storage).free_keys()
            } else {
                old(storage).free_keys().drop_last()
            }),
            final(storage).slot_count() == (if old(storage).free_keys().len() == 0 {
                old(storage).slot_count() + 1
            } else {
                old(storage).slot_count()
            }),
            final(broker)@ == publish_view(
                old(broker)@,
                RoomChanged { mutation_type: MutationType::Created, id },
            ),
    {
        let id = storage.insert(name, author);
        broker.publish(RoomChanged { mutation_type: MutationType::Created, id });
        id
    }

    /// Deletes the room whose id the text `id` gives and announces it;
    /// returns whether there was such a room. Without one nothing changes and
    /// nothing is announced; text that is no id is an error.
    pub fn delete_room(
        &self,
        storage: &mut Storage,
        broker: &mut Broker<RoomChanged>,
        id: &str,
    ) -> (r: Result<bool, InvalidId>)
        requires
            old(storage).wf(),
        ensures
            final(storage).wf(),
            r is Err <==> !is_valid_id(id.spec_bytes()),
            r is Err ==> *final(storage) == *old(storage) && *final(broker) == *old(broker),
            r is Ok ==> ({
                let key = digits_value(id_digits(id.spec_bytes()));
                let found = r->Ok_0;
                &&& found == old(storage)@.dom().contains(key as usize)
                &&& final(storage)@ == old(storage)@.remove(key as usize)
                &&& found ==> final(storage).free_keys() == old(storage).free_keys().push(
                    key as usize,
                ) && final(storage).slot_count() == old(storage).slot_count()
                &&& !found ==> *final(storage) == *old(storage)
                &&& final(broker)@ == (if found {
                    publish_view(
                        old(broker)@,
                        RoomChanged { mutation_type: MutationType::Deleted, id: key as usize },
                    )
                } else {
                    old(broker)@
                })
            }),
    {
        let key = match parse_id(id) {
            Some(k) => k,
            None => {
                return Err(InvalidId);
            },
        };
        if storage.contains(key) {
            storage.remove(key);
            broker.publish(RoomChanged { mutation_type: MutationType::Deleted, id: key });
            Ok(true)
        } else {
            proof {
                assert(storage@.remove(key) =~= storage@);
            }
            Ok(false)
        }
    }
}

/// The error for a room id text that is not a decimal number that fits in
/// `usize`.
#[derive(Clone, Copy, PartialEq, Eq, Structural, Debug)]
pub struct InvalidId;

/// One consumer's subscription to room changes: its slot in the broker and
/// the kind of change it wants, if it wants only one.
pub struct RoomSubscription {
    pub slot: usize,
    pub filter: Option<MutationType>,
}

impl RoomSubscription {
    /// Takes every pending event of this subscription that its filter lets
    /// through, oldest first.
    pub fn next_events(&self, broker: &mut Broker<RoomChanged>) -> (r: Vec<RoomChanged>)
        ensures
            final(broker)@ == drain_view(old(broker)@, self.slot as int),
            r@ == (if is_live(old(broker)@, self.slot as int) {
                old(broker)@[self.slot as int]->Some_0
            } else {
                Seq::empty()
            }).filter(|e: RoomChanged| accepts(self.filter, e)),
    {
        let pending = broker.take_pending(self.slot);
        filter_events(&pending, self.filter)
    }

    /// Ends the subscription and releases its queue.
    pub fn close(self, broker: &mut Broker<RoomChanged>)
        ensures
            final(broker)@ == (if is_live(old(broker)@, self.slot as int) {
                old(broker)@.update(self.slot as int, None)
            } else {
                old(broker)@
            }),
    {
        broker.unsubscribe(self.slot);
    }
}

/// The root of the subscriptions.
pub struct SubscriptionRoot;

impl SubscriptionRoot {
    /// The value a ticker with step `n` shows after `previous`.
    pub fn interval(&self, previous: i32, n: i32) -> (r: i32)
        requires
            i32::MIN <= previous + n <= i32::MAX,
        ensures
            r == previous + n,
    {
        previous + n
    }

    /// Subscribes to room changes, to those of kind `mutation_type` only when
    /// one is given.
    pub fn rooms(&self, broker: &mut Broker<RoomChanged>, mutation_type: Option<MutationType>) -> (r:
        RoomSubscription)
        ensures
            r.filter == mutation_type,
            is_first_vacant(old(broker)@, r.slot as int),
            final(broker)@ == subscribe_view(old(broker)@, r.slot as int),
    {
        let slot = broker.subscribe();
        RoomSubscription { slot, filter: mutation_type }
    }
}

} // verus!
