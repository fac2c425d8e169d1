//! What a subscriber receives, stated over the registry model of
//! `crate::broker` and proved.
use vstd::prelude::*;
use crate::rooms::{accepts, MutationType, RoomChanged};
use crate::broker::{
    publish_view, publish_all_view, is_first_vacant, subscribe_view, drain_view, is_live,
};

verus! {

/// After the events `es` are published, every live slot holds its earlier
/// queue followed by `es`, and every vacant slot stays vacant.
pub proof fn publish_all_appends<T>(v: Seq<Option<Seq<T>>>, es: Seq<T>)
    ensures
        publish_all_view(v, es).len() == v.len(),
        forall|j: int| 0 <= j < v.len() ==> #[trigger] publish_all_view(v, es)[j] == match v[j] {
            Some(q) => Some(q + es),
            None => None,
        },
    decreases es.len(),
{
    if es.len() > 0 {
        let rest = es.drop_last();
        publish_all_appends(v, rest);
        assert forall|j: int| 0 <= j < v.len() implies #[trigger] publish_all_view(v, es)[j]
            == match v[j] {
            Some(q) => Some(q + es),
            None => None,
        } by {
            match v[j] {
                Some(q) => {
                    assert(q + rest + seq![es.last()] =~= q + es);
                    assert((q + rest).push(es.last()) =~= q + es);
                },
                None => {},
            }
        }
    } else {
        assert forall|j: int| 0 <= j < v.len() implies #[trigger] publish_all_view(v, es)[j]
            == match v[j] {
            Some(q) => Some(q + es),
            None => None,
        } by {
            match v[j] {
                Some(q) => {
                    assert(q + es =~= q);
                },
                None => {},
            }
        }
    }
}

/// Delivery: a subscriber that joins and then sees the events `es` published
/// has exactly `es` waiting, in publish order.
pub proof fn subscriber_receives_all_in_order<T>(v: Seq<Option<Seq<T>>>, id: int, es: Seq<T>)
    requires
        is_first_vacant(v, id),
    ensures
        is_live(publish_all_view(subscribe_view(v, id), es), id),
        publish_all_view(subscribe_view(v, id), es)[id] == Some(es),
{
    let w = subscribe_view(v, id);
    publish_all_appends(w, es);
    assert(Seq::<T>::empty() + es =~= es);
}

/// Isolation: an event published before a subscriber joins never reaches it,
/// while a subscriber that was live then receives it ahead of what follows.
pub proof fn late_subscriber_misses_earlier_events<T>(
    v: Seq<Option<Seq<T>>>,
    a: int,
    e: T,
    b: int,
    es: Seq<T>,
)
    requires
        is_live(v, a),
        is_first_vacant(publish_view(v, e), b),
    ensures
        ({
            let w = publish_all_view(subscribe_view(publish_view(v, e), b), es);
            &&& w[b] == Some(es)
            &&& w[a] == Some(v[a]->Some_0.push(e) + es)
        }),
{
    let u = subscribe_view(publish_view(v, e), b);
    publish_all_appends(u, es);
    assert(Seq::<T>::empty() + es =~= es);
}

/// Publishing while no subscriber is live changes nothing.
pub proof fn publish_without_subscribers_is_noop<T>(v: Seq<Option<Seq<T>>>, e: T)
    requires
        forall|j: int| !is_live(v, j),
    ensures
        publish_view(v, e) == v,
{
    assert forall|j: int| 0 <= j < v.len() implies publish_view(v, e)[j] == v[j] by {
        assert(!is_live(v, j));
    }
    assert(publish_view(v, e) =~= v);
}

/// Independent cursors: subscriber `a` drains between two runs of publishes
/// while subscriber `b` does not; `a` got everything published before its
/// drain and holds everything after it, and `b` holds all of it, in order.
pub proof fn cursors_are_independent<T>(
    v: Seq<Option<Seq<T>>>,
    a: int,
    b: int,
    es1: Seq<T>,
    es2: Seq<T>,
)
    requires
        is_live(v, a),
        is_live(v, b),
        a != b,
    ensures
        ({
            let w1 = publish_all_view(v, es1);
            let w3 = publish_all_view(drain_view(w1, a), es2);
            &&& w1[a] == Some(v[a]->Some_0 + es1)
            &&& w3[a] == Some(es2)
            &&& w3[b] == Some(v[b]->Some_0 + es1 + es2)
        }),
{
    let w1 = publish_all_view(v, es1);
    publish_all_appends(v, es1);
    let w2 = drain_view(w1, a);
    publish_all_appends(w2, es2);
    assert(Seq::<T>::empty() + es2 =~= es2);
    assert(v[b]->Some_0 + es1 + es2 =~= (v[b]->Some_0 + es1) + es2);
}

/// Filtering what arrives in several drains gives the filter of all of it:
/// the kept events are exactly those satisfying `f`, in arrival order.
pub proof fn filter_over_drains<T>(first: Seq<T>, second: Seq<T>, f: spec_fn(T) -> bool)
    ensures
        (first + second).filter(f) == first.filter(f) + second.filter(f),
        forall|x: T| (first + second).filter(f).contains(x) <==> (first + second).contains(x) && f(x),
{
    Seq::filter_distributes_over_add(first, second, f);
    let s = first + second;
    assert forall|x: T| s.filter(f).contains(x) <==> s.contains(x) && f(x) by {
        if s.filter(f).contains(x) {
            s.lemma_filter_contains_rev(f, x);
            let i = choose|i: int| 0 <= i < s.filter(f).len() && s.filter(f)[i] == x;
            s.lemma_filter_pred(f, i);
        }
        if s.contains(x) && f(x) {
            let i = choose|i: int| 0 <= i < s.len() && s[i] == x;
            s.lemma_filter_contains(f, i);
        }
    }
}

/// The subscriptions to creations and to deletions split a stream of room
/// changes: each event passes exactly one of the two filters, so together
/// they keep as many events as the stream holds.
pub proof fn created_and_deleted_split(es: Seq<RoomChanged>)
    ensures
        forall|e: RoomChanged| accepts(Some(MutationType::Created), e) != accepts(
            Some(MutationType::Deleted),
            e,
        ),
        es.filter(|e: RoomChanged| accepts(Some(MutationType::Created), e)).len() + es.filter(
            |e: RoomChanged| accepts(Some(MutationType::Deleted), e),
        ).len() == es.len(),
    decreases es.len(),
{
    reveal(Seq::filter);
    if es.len() > 0 {
        created_and_deleted_split(es.drop_last());
    }
}

} // verus!
