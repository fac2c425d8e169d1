//! Room storage: rooms kept in a `slab::Slab`, each under its own key.
use vstd::prelude::*;
use slab::Slab;

verus! {

/// What a stored room reads as: its id, name and author.
pub type RoomView = (usize, Seq<char>, Seq<char>);

/// A chat room.
pub struct Room {
    id: usize,
    name: String,
    author: String,
}

impl View for Room {
    type V = RoomView;

    closed spec fn view(&self) -> RoomView {
        (self.id, self.name@, self.author@)
    }
}

impl Room {
    /// The room's id, which is also its key in the storage.
    pub fn id(&self) -> (r: usize)
        ensures
            r == self@.0,
    {
        self.id
    }

    /// The room's name.
    pub fn name(&self) -> (r: &str)
        ensures
            r@ == self@.1,
    {
        self.name.as_str()
    }

    /// The room's author.
    pub fn author(&self) -> (r: &str)
        ensures
            r@ == self@.2,
    {
        self.author.as_str()
    }

    /// A copy of the room.
    pub fn duplicate(&self) -> (r: Room)
        ensures
            r@ == self@,
    {
        Room { id: self.id, name: self.name.clone(), author: self.author.clone() }
    }
}

#[verifier::external_type_specification]
#[verifier::external_body]
#[verifier::reject_recursive_types(T)]
pub struct ExSlab<T>(Slab<T>);

/// The rooms a slab holds, by key.
pub uninterp spec fn slab_rooms(s: Slab<Room>) -> Map<usize, RoomView>;

/// The slab's chain of vacant keys; the one the next insertion takes is last.
pub uninterp spec fn slab_free(s: Slab<Room>) -> Seq<usize>;

/// The number of entries, vacant or not, the slab has laid out.
pub uninterp spec fn slab_slots(s: Slab<Room>) -> nat;

/// The key a slab's next insertion takes: the last vacant key of the chain,
/// or a new entry at the end when no key is vacant.
pub open spec fn next_slot(free: Seq<usize>, slots: nat) -> nat {
    if free.len() == 0 {
        slots
    } else {
        free.last() as nat
    }
}

/// Relies on slab::Slab::new: a slab that holds nothing, with no entries
/// and no vacant key.
#[verifier::external_body]
fn slab_new() -> (r: Slab<Room>)
    ensures
        slab_rooms(r).dom() == Set::<usize>::empty(),
        slab_free(r).len() == 0,
        slab_slots(r) == 0,
{
    Slab::new()
}

/// Relies on slab::Slab::vacant_key: the key of the next insertion, which is
/// the `next` field: the head of the vacant chain, or the end.
#[verifier::external_body]
fn slab_vacant_key(s: &Slab<Room>) -> (r: usize)
    ensures
        r == next_slot(slab_free(*s), slab_slots(*s)),
{
    s.vacant_key()
}

/// Relies on slab::Slab::insert (and `insert_at`): the value is stored under
/// the `next` key, which is returned; at the end a new entry is pushed, else
/// the vacant chain loses that key. No other entry changes.
#[verifier::external_body]
fn slab_insert(s: &mut Slab<Room>, room: Room) -> (r: usize)
    ensures
        r == next_slot(slab_free(*old(s)), slab_slots(*old(s))),
        slab_rooms(*final(s)) == slab_rooms(*old(s)).insert(r, room@),
        slab_free(*final(s)) == (if slab_free(*old(s)).len() == 0 {
            slab_free(*old(s))
        } else {
            slab_free(*old(s)).drop_last()
        }),
        slab_slots(*final(s)) == (if slab_free(*old(s)).len() == 0 {
            slab_slots(*old(s)) + 1
        } else {
            slab_slots(*old(s))
        }),
{
    s.insert(room)
}

/// Relies on slab::Slab::contains: whether a value is stored under the key.
#[verifier::external_body]
fn slab_contains(s: &Slab<Room>, key: usize) -> (r: bool)
    ensures
        r == slab_rooms(*s).dom().contains(key),
{
    s.contains(key)
}

/// Relies on slab::Slab::remove (and `try_remove`): the value under the key
/// is taken out and returned, and the key becomes the head of the vacant
/// chain; it panics when there is no value.
#[verifier::external_body]
fn slab_remove(s: &mut Slab<Room>, key: usize) -> (r: Room)
    requires
        slab_rooms(*old(s)).dom().contains(key),
    ensures
        r@ == slab_rooms(*old(s))[key],
        slab_rooms(*final(s)) == slab_rooms(*old(s)).remove(key),
        slab_free(*final(s)) == slab_free(*old(s)).push(key),
        slab_slots(*final(s)) == slab_slots(*old(s)),
{
    s.remove(key)
}

/// Relies on slab::Slab::get: the value stored under the key, if any.
#[verifier::external_body]
fn slab_get(s: &Slab<Room>, key: usize) -> (r: Option<&Room>)
    ensures
        r is Some == slab_rooms(*s).dom().contains(key),
        r is Some ==> r->Some_0@ == slab_rooms(*s)[key],
{
    s.get(key)
}

/// Relies on slab::Slab::iter, which walks the entries in increasing key
/// order: the keys of all stored values.
#[verifier::external_body]
fn slab_keys(s: &Slab<Room>) -> (r: Vec<usize>)
    ensures
        forall|i: int, j: int| 0 <= i < j < r@.len() ==> r@[i] < r@[j],
        forall|k: usize| r@.contains(k) <==> slab_rooms(*s).dom().contains(k),
{
    s.iter().map(|(k, _)| k).collect()
}

/// The rooms of the service, each stored under the key that is its id.
pub struct Storage {
    rooms: Slab<Room>,
}

impl View for Storage {
    type V = Map<usize, RoomView>;

    closed spec fn view(&self) -> Map<usize, RoomView> {
        slab_rooms(self.rooms)
    }
}

/// The keys below `n` number `n`.
proof fn keys_below_count(n: nat)
    requires
        n <= usize::MAX + 1,
    ensures
        Set::new(|k: usize| k < n).finite(),
        Set::new(|k: usize| k < n).len() == n,
    decreases n,
{
    if n == 0 {
        assert(Set::new(|k: usize| k < n) =~= Set::<usize>::empty());
    } else {
        let m = (n - 1) as nat;
        keys_below_count(m);
        assert(Set::new(|k: usize| k < n) =~= Set::new(|k: usize| k < m).insert(m as usize));
    }
}

impl Storage {
    /// Every room is stored under its own id, and the stored ids are the
    /// entries laid out so far less the vacant chain, which holds each
    /// vacant entry once.
    pub open spec fn wf(&self) -> bool {
        &&& forall|k: usize| #[trigger] self@.dom().contains(k) ==> self@[k].0 == k
        &&& forall|k: usize| #[trigger]
            self@.dom().contains(k) <==> (k < self.slot_count() && !self.free_keys().contains(k))
        &&& self.free_keys().no_duplicates()
        &&& forall|i: int| 0 <= i < self.free_keys().len() ==> #[trigger] self.free_keys()[i]
            < self.slot_count()
        &&& self.slot_count() <= usize::MAX + 1
    }

    /// The vacant ids, the one the next new room gets last.
    pub closed spec fn free_keys(&self) -> Seq<usize> {
        slab_free(self.rooms)
    }

    /// The number of ids handed out so far, vacant or not.
    pub closed spec fn slot_count(&self) -> nat {
        slab_slots(self.rooms)
    }

    /// The id the next new room gets: the most recently vacated one, or the
    /// next unused one when none is vacant.
    pub open spec fn next_key(&self) -> nat {
        next_slot(self.free_keys(), self.slot_count())
    }

    /// Storage without rooms.
    pub fn new() -> (r: Storage)
        ensures
            r.wf(),
            r@ == Map::<usize, RoomView>::empty(),
            r.free_keys() == Seq::<usize>::empty(),
            r.slot_count() == 0,
    {
        let r = Storage { rooms: slab_new() };
        assert(r@ =~= Map::<usize, RoomView>::empty());
        assert(r.free_keys() =~= Seq::<usize>::empty());
        r
    }

    /// Stores a new room with the given name and author and returns its id:
    /// the most recently vacated id, or, with none vacant, the number of
    /// stored rooms.
    pub fn insert(&mut self, name: String, author: String) -> (id: usize)
        requires
            old(self).wf(),
        ensures
            final(self).wf(),
            id == old(self).next_key(),
            !old(self)@.dom().contains(id),
            old(self).free_keys().len() == 0 ==> id == old(self)@.dom().len(),
            final(self)@ == old(self)@.insert(id, (id, name@, author@)),
            final(self).free_keys() == (if old(self).free_keys().len() == 0 {
                old(self).free_keys()
            } else {
                old(self).free_keys().drop_last()
            }),
            final(self).slot_count() == (if old(self).free_keys().len() == 0 {
                old(self).slot_count() + 1
            } else {
                old(self).slot_count()
            }),
    {
        let ghost f0 = self.free_keys();
        let ghost n0 = self.slot_count();
        let id = slab_vacant_key(&self.rooms);
        proof {
            if f0.len() > 0 {
                assert(f0.contains(f0.last()));
                assert(f0[f0.len() - 1] < n0);
            }
            assert(!old(self)@.dom().contains(id));
            if f0.len() == 0 {
                assert(old(self)@.dom() =~= Set::new(|k: usize| k < n0));
                keys_below_count(n0);
            }
        }
        let room = Room { id, name, author };
        let k = slab_insert(&mut self.rooms, room);
        assert(k == id);
        proof {
            assert forall|j: usize| #[trigger] self@.dom().contains(j) implies self@[j].0 == j by {
                if j != id {
                    assert(old(self)@.dom().contains(j));
                }
            }
            let f1 = self.free_keys();
            if f0.len() > 0 {
                assert(f1 =~= f0.subrange(0, f0.len() - 1));
                assert forall|j: usize| #[trigger]
                    self@.dom().contains(j) <==> (j < self.slot_count() && !f1.contains(j)) by {
                    if f0.contains(j) && j != id {
                        let i = choose|i: int| 0 <= i < f0.len() && f0[i] == j;
                        assert(i != f0.len() - 1);
                        assert(f1[i] == j);
                    }
                    if f1.contains(j) {
                        let i = choose|i: int| 0 <= i < f1.len() && f1[i] == j;
                        assert(f0[i] == j);
                        assert(j != id);
                    }
                }
            }
        }
        id
    }

    /// Whether a room is stored under `id`.
    pub fn contains(&self, id: usize) -> (r: bool)
        ensures
            r == self@.dom().contains(id),
    {
        slab_contains(&self.rooms, id)
    }

    /// Removes the room stored under `id`, if there is one; returns whether
    /// there was.
    pub fn remove(&mut self, id: usize) -> (r: bool)
        requires
            old(self).wf(),
        ensures
            final(self).wf(),
            r == old(self)@.dom().contains(id),
            final(self)@ == old(self)@.remove(id),
            r ==> final(self).free_keys() == old(self).free_keys().push(id)
                && final(self).slot_count() == old(self).slot_count(),
            !r ==> *final(self) == *old(self),
    {
        if slab_contains(&self.rooms, id) {
            let ghost f0 = self.free_keys();
            proof {
                assert(old(self)@.dom().contains(id));
                assert(!f0.contains(id));
            }
            let _room = slab_remove(&mut self.rooms, id);
            proof {
                assert forall|j: usize| #[trigger] self@.dom().contains(j) implies self@[j].0
                    == j by {
                    assert(old(self)@.dom().contains(j));
                }
                let f1 = self.free_keys();
                assert(f1[f1.len() - 1] == id);
                assert forall|j: usize| #[trigger]
                    self@.dom().contains(j) <==> (j < self.slot_count() && !f1.contains(j)) by {
                    if f1.contains(j) && j != id {
                        let i = choose|i: int| 0 <= i < f1.len() && f1[i] == j;
                        assert(f0[i] == j);
                    }
                    if f0.contains(j) {
                        let i = choose|i: int| 0 <= i < f0.len() && f0[i] == j;
                        assert(f1[i] == j);
                    }
                    if j == id {
                        assert(f1.contains(id));
                    }
                    if j != id {
                        assert(old(self)@.dom().contains(j) <==> self@.dom().contains(j));
                    }
                }
                assert(f1.no_duplicates()) by {
                    assert forall|a: int, b: int| 0 <= a < b < f1.len() implies f1[a] != f1[b] by {
                        if b == f1.len() - 1 {
                            assert(f0.contains(f1[a]));
                        }
                    }
                }
            }
            true
        } else {
            assert(old(self)@.remove(id) =~= old(self)@);
            false
        }
    }

    /// A copy of the room stored under `id`, if there is one.
    pub fn get(&self, id: usize) -> (r: Option<Room>)
        ensures
            r is Some == self@.dom().contains(id),
            r is Some ==> r->Some_0@ == self@[id],
    {
        match slab_get(&self.rooms, id) {
            Some(room) => Some(room.duplicate()),
            None => None,
        }
    }

    /// Copies of all stored rooms, by increasing id.
    pub fn all(&self) -> (r: Vec<Room>)
        requires
            self.wf(),
        ensures
            forall|i: int, j: int| 0 <= i < j < r@.len() ==> r@[i]@.0 < r@[j]@.0,
            forall|i: int| 0 <= i < r@.len() ==> self@.dom().contains(#[trigger] r@[i]@.0)
                && self@[r@[i]@.0] == r@[i]@,
            forall|k: usize| #[trigger] self@.dom().contains(k) ==> exists|i: int|
                0 <= i < r@.len() && r@[i]@.0 == k,
    {
        let keys = slab_keys(&self.rooms);
        let mut out: Vec<Room> = Vec::new();
        let mut i: usize = 0;
        while i < keys.len()
            invariant
                self.wf(),
                0 <= i <= keys@.len(),
                out@.len() == i,
                forall|a: int, b: int| 0 <= a < b < keys@.len() ==> keys@[a] < keys@[b],
                forall|k: usize| keys@.contains(k) <==> self@.dom().contains(k),
                forall|a: int| 0 <= a < i ==> #[trigger] out@[a]@ == self@[keys@[a]]
                    && self@.dom().contains(keys@[a]) && out@[a]@.0 == keys@[a],
            decreases keys.len() - i,
        {
            let k = keys[i];
            assert(keys@.contains(k));
            match slab_get(&self.rooms, k) {
                Some(room) => out.push(room.duplicate()),
                None => {
                    assert(false);
                },
            }
            i = i + 1;
        }
        assert forall|k: usize| #[trigger] self@.dom().contains(k) implies exists|a: int|
            0 <= a < out@.len() && out@[a]@.0 == k by {
            assert(keys@.contains(k));
            let a = choose|a: int| 0 <= a < keys@.len() && keys@[a] == k;
            assert(out@[a]@.0 == k);
        }
        out
    }
}

} // verus!
