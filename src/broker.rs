//! A fan-out channel: every live subscriber owns an unbounded FIFO queue, and
//! publishing appends a copy of the event to each of those queues.
use vstd::prelude::*;

verus! {

/// The pending events of one slot: `None` for a vacant slot.
pub open spec fn slot_view<T>(slot: Option<Vec<T>>) -> Option<Seq<T>> {
    match slot {
        Some(q) => Some(q@),
        None => None,
    }
}

/// The registry after `e` was appended to the queue of every live slot.
pub open spec fn publish_view<T>(v: Seq<Option<Seq<T>>>, e: T) -> Seq<Option<Seq<T>>> {
    Seq::new(
        v.len(),
        |i: int|
            match v[i] {
                Some(q) => Some(q.push(e)),
                None => None,
            },
    )
}

/// The registry after each event of `es` was published, in order.
pub open spec fn publish_all_view<T>(v: Seq<Option<Seq<T>>>, es: Seq<T>) -> Seq<
    Option<Seq<T>>,
>
    decreases es.len(),
{
    if es.len() == 0 {
        v
    } else {
        publish_view(publish_all_view(v, es.drop_last()), es.last())
    }
}

/// `id` is the slot a new subscriber takes: the lowest vacant one, or a new
/// slot at the end when none is vacant.
pub open spec fn is_first_vacant<T>(v: Seq<Option<Seq<T>>>, id: int) -> bool {
    &&& 0 <= id <= v.len()
    &&& id == v.len() || v[id] is None
    &&& forall|j: int| 0 <= j < id ==> v[j] is Some
}

/// The registry after a subscriber took slot `id` with an empty queue.
pub open spec fn subscribe_view<T>(v: Seq<Option<Seq<T>>>, id: int) -> Seq<Option<Seq<T>>> {
    if id == v.len() {
        v.push(Some(Seq::empty()))
    } else {
        v.update(id, Some(Seq::empty()))
    }
}

/// The registry after slot `id` was handed all its pending events.
pub open spec fn drain_view<T>(v: Seq<Option<Seq<T>>>, id: int) -> Seq<Option<Seq<T>>> {
    if 0 <= id < v.len() && v[id] is Some {
        v.update(id, Some(Seq::empty()))
    } else {
        v
    }
}

/// Whether slot `id` holds a live subscriber.
pub open spec fn is_live<T>(v: Seq<Option<Seq<T>>>, id: int) -> bool {
    0 <= id < v.len() && v[id] is Some
}

/// An owned broadcaster for events of type `T`.
///
/// A subscriber is identified by the index of its slot; a slot is vacant once
/// its subscriber left, and the next subscriber takes the lowest vacant one.
/// The slots are a plain `Vec`, whose contents Verus models for any event
/// type, so that the broker stays generic over `T`.
pub struct Broker<T> {
    slots: Vec<Option<Vec<T>>>,
}

impl<T> View for Broker<T> {
    type V = Seq<Option<Seq<T>>>;

    closed spec fn view(&self) -> Seq<Option<Seq<T>>> {
        self.slots@.map_values(|s: Option<Vec<T>>| slot_view(s))
    }
}

impl<T: Copy> Broker<T> {
    /// A broadcaster with no subscribers.
    pub fn new() -> (r: Self)
        ensures
            r@ == Seq::<Option<Seq<T>>>::empty(),
    {
        let r = Broker { slots: Vec::new() };
        assert(r@ =~= Seq::<Option<Seq<T>>>::empty());
        r
    }

    /// Registers a new subscriber with an empty queue and returns its handle.
    pub fn subscribe(&mut self) -> (id: usize)
        ensures
            is_first_vacant(old(self)@, id as int),
            final(self)@ == subscribe_view(old(self)@, id as int),
    {
        let ghost v0 = self@;
        let n = self.slots.len();
        let mut i: usize = 0;
        while i < n
            invariant
                self@ == v0,
                v0 == old(self)@,
                n == self.slots.len(),
                0 <= i <= n,
                forall|j: int| 0 <= j < i ==> self@[j] is Some,
            decreases n - i,
        {
            assert(self@[i as int] == slot_view(self.slots@[i as int]));
            if self.slots[i].is_none() {
                self.slots.set(i, Some(Vec::new()));
                assert(self@ =~= subscribe_view(v0, i as int));
                return i;
            }
            i = i + 1;
        }
        self.slots.push(Some(Vec::new()));
        assert(self@ =~= subscribe_view(v0, n as int));
        n
    }

    /// Appends `event` to the queue of every live subscriber; with none, the
    /// event is dropped and nothing changes.
    pub fn publish(&mut self, event: T)
        ensures
            final(self)@ == publish_view(old(self)@, event),
    {
        let ghost v0 = self@;
        let n = self.slots.len();
        let mut i: usize = 0;
        while i < n
            invariant
                n == self.slots.len(),
                v0.len() == n,
                0 <= i <= n,
                forall|j: int| 0 <= j < i ==> self@[j] == publish_view(v0, event)[j],
                forall|j: int| i <= j < n ==> self@[j] == v0[j],
            decreases n - i,
        {
            assert(self@[i as int] == slot_view(self.slots@[i as int]));
            let mut slot: Option<Vec<T>> = None;
            std::mem::swap(&mut slot, &mut self.slots[i]);
            match slot {
                Some(mut q) => {
                    q.push(event);
                    self.slots.set(i, Some(q));
                },
                None => {
                    self.slots.set(i, None);
                },
            }
            assert(self@[i as int] == slot_view(self.slots@[i as int]));
            i = i + 1;
        }
        assert(self@ =~= publish_view(v0, event));
    }
    /// Removes subscriber `id` and releases its queue; a handle that is not
    /// live leaves the registry as it was.
    pub fn unsubscribe(&mut self, id: usize)
        ensures
            final(self)@ == (if is_live(old(self)@, id as int) {
                old(self)@.update(id as int, None)
            } else {
                old(self)@
            }),
    {
        if id < self.slots.len() {
            let ghost v0 = self@;
            assert(self@[id as int] == slot_view(self.slots@[id as int]));
            let live = self.slots[id].is_some();
            if live {
                self.slots.set(id, None);
                assert(self@ =~= v0.update(id as int, None));
            }
        }
    }

    /// Whether `id` names a live subscriber.
    pub fn is_subscribed(&self, id: usize) -> (r: bool)
        ensures
            r == is_live(self@, id as int),
    {
        if id < self.slots.len() {
            assert(self@[id as int] == slot_view(self.slots@[id as int]));
            self.slots[id].is_some()
        } else {
            false
        }
    }

    /// Whether any subscriber is live.
    pub fn has_subscribers(&self) -> (r: bool)
        ensures
            r == exists|j: int| is_live(self@, j),
    {
        let n = self.slots.len();
        let mut i: usize = 0;
        while i < n
            invariant
                n == self.slots.len(),
                0 <= i <= n,
                forall|j: int| 0 <= j < i ==> !is_live(self@, j),
            decreases n - i,
        {
            assert(self@[i as int] == slot_view(self.slots@[i as int]));
            if self.slots[i].is_some() {
                assert(is_live(self@, i as int));
                return true;
            }
            i = i + 1;
        }
        false
    }

    /// The number of events waiting for subscriber `id`; zero for a handle
    /// that is not live.
    pub fn pending(&self, id: usize) -> (r: usize)
        ensures
            r == (if is_live(self@, id as int) {
                self@[id as int]->Some_0.len()
            } else {
                0
            }),
    {
        if id < self.slots.len() {
            assert(self@[id as int] == slot_view(self.slots@[id as int]));
            match &self.slots[id] {
                Some(q) => q.len(),
                None => 0,
            }
        } else {
            0
        }
    }

    /// Takes the oldest event waiting for subscriber `id`, if there is one.
    pub fn try_next(&mut self, id: usize) -> (r: Option<T>)
        ensures
            is_live(old(self)@, id as int) && old(self)@[id as int]->Some_0.len() > 0 ==> {
                let q = old(self)@[id as int]->Some_0;
                &&& r == Some(q[0])
                &&& final(self)@ == old(self)@.update(id as int, Some(q.drop_first()))
            },
            !(is_live(old(self)@, id as int) && old(self)@[id as int]->Some_0.len() > 0) ==> {
                &&& r is None
                &&& final(self)@ == old(self)@
            },
    {
        if id >= self.slots.len() {
            return None;
        }
        let ghost v0 = self@;
        assert(self@[id as int] == slot_view(self.slots@[id as int]));
        let mut slot: Option<Vec<T>> = None;
        std::mem::swap(&mut slot, &mut self.slots[id]);
        match slot {
            Some(mut q) => {
                if q.len() > 0 {
                    let e = q.remove(0);
                    self.slots.set(id, Some(q));
                    assert(self@ =~= v0.update(id as int, Some(v0[id as int]->Some_0.drop_first())));
                    Some(e)
                } else {
                    self.slots.set(id, Some(q));
                    assert(self@ =~= v0);
                    None
                }
            },
            None => {
                self.slots.set(id, None);
                assert(self@ =~= v0);
                None
            },
        }
    }

    /// Hands subscriber `id` every event waiting for it, oldest first, and
    /// leaves its queue empty; a handle that is not live gets nothing.
    pub fn take_pending(&mut self, id: usize) -> (r: Vec<T>)
        ensures
            r@ == (if is_live(old(self)@, id as int) {
                old(self)@[id as int]->Some_0
            } else {
                Seq::empty()
            }),
            final(self)@ == drain_view(old(self)@, id as int),
    {
        if id >= self.slots.len() {
            return Vec::new();
        }
        let ghost v0 = self@;
        assert(self@[id as int] == slot_view(self.slots@[id as int]));
        let mut slot: Option<Vec<T>> = None;
        std::mem::swap(&mut slot, &mut self.slots[id]);
        match slot {
            Some(q) => {
                self.slots.set(id, Some(Vec::new()));
                assert(self@ =~= drain_view(v0, id as int));
                q
            },
            None => {
                self.slots.set(id, None);
                assert(self@ =~= v0);
                Vec::new()
            },
        }
    }
}

} // verus!
