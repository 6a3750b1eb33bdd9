//! The order of overrides: by the instants that their `RECURRENCE-ID`s name.
use crate::parser::ical::component::event::{EventView, IcalEvent};
use crate::types::dateordatetime::instant_of;
use vstd::prelude::*;
use vstd::seq_lib::{to_multiset_build, to_multiset_contains};

verus! {

/// The place of an instance among the overrides: the instant that its
/// `RECURRENCE-ID` names. An instance without one comes before all others.
pub open spec fn recurid_key(v: EventView) -> int {
    match v.recurid {
        Some(recurid) => instant_of(recurid.0),
        None => i64::MIN as int,
    }
}

/// The sorted list `sorted` with `x` behind the last item that does not come
/// after it.
pub open spec fn insert_by_key(sorted: Seq<EventView>, x: EventView) -> Seq<EventView>
    decreases sorted.len(),
{
    if sorted.len() == 0 {
        seq![x]
    } else if recurid_key(sorted.last()) <= recurid_key(x) {
        sorted.push(x)
    } else {
        insert_by_key(sorted.drop_last(), x).push(sorted.last())
    }
}

/// The instances in the order of the instants that their `RECURRENCE-ID`s
/// name. Instances that name the same instant keep their order.
pub open spec fn sorted_by_recurid(items: Seq<EventView>) -> Seq<EventView>
    decreases items.len(),
{
    if items.len() == 0 {
        Seq::empty()
    } else {
        insert_by_key(sorted_by_recurid(items.drop_last()), items.last())
    }
}

/// Whether no instance comes before one that stands in front of it.
pub open spec fn ascending_by_recurid(items: Seq<EventView>) -> bool {
    forall|i: int, j: int|
        0 <= i < j < items.len() ==> recurid_key(#[trigger] items[i]) <= recurid_key(
            #[trigger] items[j],
        )
}

/// Where `x` goes in a sorted list: behind every item that does not come
/// after it, and in front of the items that do.
pub proof fn lemma_insert_place(sorted: Seq<EventView>, x: EventView, place: int)
    requires
        0 <= place <= sorted.len(),
        forall|j: int|
            place <= j < sorted.len() ==> recurid_key(#[trigger] sorted[j]) > recurid_key(x),
        place > 0 ==> recurid_key(sorted[place - 1]) <= recurid_key(x),
    ensures
        insert_by_key(sorted, x) == sorted.insert(place, x),
    decreases sorted.len(),
{
    if sorted.len() == 0 {
        assert(sorted.insert(place, x) =~= seq![x]);
    } else if place == sorted.len() {
        assert(sorted.insert(place, x) =~= sorted.push(x));
    } else {
        let front = sorted.drop_last();
        assert(recurid_key(sorted[sorted.len() - 1]) > recurid_key(x));
        assert forall|j: int| place <= j < front.len() implies recurid_key(#[trigger] front[j])
            > recurid_key(x) by {
            assert(front[j] == sorted[j]);
        }
        if place > 0 {
            assert(front[place - 1] == sorted[place - 1]);
        }
        lemma_insert_place(front, x, place);
        assert(front.insert(place, x).push(sorted.last()) =~= sorted.insert(place, x));
    }
}

proof fn lemma_insert_keeps_order(sorted: Seq<EventView>, x: EventView)
    requires
        ascending_by_recurid(sorted),
    ensures
        ascending_by_recurid(insert_by_key(sorted, x)),
        insert_by_key(sorted, x).len() == sorted.len() + 1,
        insert_by_key(sorted, x).to_multiset() == sorted.to_multiset().insert(x),
        forall|i: int|
            0 <= i < insert_by_key(sorted, x).len() ==> #[trigger] insert_by_key(sorted, x)[i] == x
                || sorted.contains(insert_by_key(sorted, x)[i]),
    decreases sorted.len(),
{
    let out = insert_by_key(sorted, x);
    if sorted.len() == 0 {
        to_multiset_build(sorted, x);
        assert(seq![x] =~= sorted.push(x));
    } else if recurid_key(sorted.last()) <= recurid_key(x) {
        to_multiset_build(sorted, x);
        assert forall|i: int, j: int| 0 <= i < j < out.len() implies recurid_key(
            #[trigger] out[i],
        ) <= recurid_key(#[trigger] out[j]) by {
            if j == sorted.len() {
                if i < sorted.len() - 1 {
                    assert(recurid_key(sorted[i]) <= recurid_key(sorted[sorted.len() - 1]));
                }
            }
        }
        assert forall|i: int| 0 <= i < out.len() implies #[trigger] out[i] == x
            || sorted.contains(out[i]) by {
            if i < sorted.len() {
                assert(sorted[i] == out[i]);
            }
        }
    } else {
        let front = sorted.drop_last();
        let last = sorted.last();
        assert(ascending_by_recurid(front)) by {
            assert forall|i: int, j: int| 0 <= i < j < front.len() implies recurid_key(
                #[trigger] front[i],
            ) <= recurid_key(#[trigger] front[j]) by {
                assert(front[i] == sorted[i] && front[j] == sorted[j]);
            }
        }
        lemma_insert_keeps_order(front, x);
        let inner = insert_by_key(front, x);
        assert(out == inner.push(last));
        to_multiset_build(inner, last);
        to_multiset_build(front, last);
        assert(front.push(last) =~= sorted);
        assert(out.to_multiset() =~= sorted.to_multiset().insert(x));
        assert forall|i: int, j: int| 0 <= i < j < out.len() implies recurid_key(
            #[trigger] out[i],
        ) <= recurid_key(#[trigger] out[j]) by {
            if j == inner.len() {
                if inner[i] != x {
                    assert(front.contains(inner[i]));
                    let k = choose|k: int| 0 <= k < front.len() && front[k] == inner[i];
                    assert(recurid_key(sorted[k]) <= recurid_key(sorted[sorted.len() - 1]));
                }
            } else {
                assert(out[i] == inner[i] && out[j] == inner[j]);
            }
        }
        assert forall|i: int| 0 <= i < out.len() implies #[trigger] out[i] == x
            || sorted.contains(out[i]) by {
            if i < inner.len() {
                if inner[i] != x {
                    let k = choose|k: int| 0 <= k < front.len() && front[k] == inner[i];
                    assert(sorted[k] == out[i]);
                }
            } else {
                assert(sorted[sorted.len() - 1] == out[i]);
            }
        }
    }
}

/// The sorted instances are the same instances, each as often as before, and
/// none comes before one that stands in front of it.
pub proof fn lemma_sorted_by_recurid(items: Seq<EventView>)
    ensures
        sorted_by_recurid(items).len() == items.len(),
        sorted_by_recurid(items).to_multiset() == items.to_multiset(),
        ascending_by_recurid(sorted_by_recurid(items)),
    decreases items.len(),
{
    if items.len() > 0 {
        let front = items.drop_last();
        lemma_sorted_by_recurid(front);
        lemma_insert_keeps_order(sorted_by_recurid(front), items.last());
        to_multiset_build(front, items.last());
        assert(front.push(items.last()) =~= items);
    } else {
        assert(sorted_by_recurid(items) =~= items);
    }
}

/// Each of the sorted instances is one of the instances.
pub proof fn lemma_sorted_item(items: Seq<EventView>, k: int)
    requires
        0 <= k < sorted_by_recurid(items).len(),
    ensures
        items.contains(sorted_by_recurid(items)[k]),
{
    let sorted = sorted_by_recurid(items);
    lemma_sorted_by_recurid(items);
    to_multiset_contains(sorted, sorted[k]);
    to_multiset_contains(items, sorted[k]);
    assert(sorted.contains(sorted[k]));
}

fn key_of(event: &IcalEvent) -> (r: i64)
    ensures
        r == recurid_key(event@),
{
    match event.get_recurrence_id() {
        Some(recurid) => recurid.0.utc(),
        None => i64::MIN,
    }
}

/// Puts the instances in the order of the instants that their
/// `RECURRENCE-ID`s name: see [`sorted_by_recurid`].
pub fn sort_by_recurid(items: Vec<IcalEvent>) -> (r: Vec<IcalEvent>)
    ensures
        r.deep_view() == sorted_by_recurid(items.deep_view()),
{
    let ghost all = items.deep_view();
    let n = items.len();
    let mut rest = crate::parser::reversed(items);
    let mut out: Vec<IcalEvent> = Vec::new();
    assert(out.deep_view() =~= sorted_by_recurid(all.take(0))) by {
        assert(all.take(0) =~= Seq::<EventView>::empty());
    }
    assert(rest.deep_view() =~= all.reverse());
    while rest.len() > 0
        invariant
            rest.len() + out.len() == n,
            n == all.len(),
            rest.deep_view() == all.reverse().take(rest.len() as int),
            out.deep_view() == sorted_by_recurid(all.take(out.len() as int)),
        decreases rest.len(),
    {
        let ghost done = out.len() as int;
        let ghost before_rest = rest.deep_view();
        let x = rest.pop().unwrap();
        proof {
            assert(rest.deep_view() =~= all.reverse().take(rest.len() as int));
            assert(x@ == before_rest[before_rest.len() - 1]);
            assert(x@ == all[done]);
            assert(all.take(done + 1).drop_last() =~= all.take(done));
            assert(all.take(done + 1).last() == all[done]);
        }
        let key = key_of(&x);
        let mut place: usize = out.len();
        while place > 0 && key_of(&out[place - 1]) > key
            invariant
                place <= out.len(),
                key == recurid_key(x@),
                forall|j: int|
                    place <= j < out.len() ==> recurid_key(#[trigger] out.deep_view()[j]) > key,
            decreases place,
        {
            assert(out.deep_view()[place - 1] == out[place - 1]@);
            place -= 1;
        }
        proof {
            if place > 0 {
                assert(out.deep_view()[place - 1] == out[place - 1]@);
            }
            lemma_insert_place(out.deep_view(), x@, place as int);
        }
        let ghost sorted = out.deep_view();
        let ghost item = x@;
        out.insert(place, x);
        assert(out.deep_view() =~= sorted.insert(place as int, item));
    }
    assert(all.take(n as int) =~= all);
    out
}

} // verus!
