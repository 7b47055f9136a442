//! Arranging rows by their time stamps.

use vstd::prelude::*;

verus! {

/// What a row is arranged by: its time stamp, and its identifier where
/// time stamps are equal.
#[derive(Clone, Copy, Debug, PartialEq, Eq, Structural)]
pub struct SortKey {
    pub time: i64,
    pub id: u64,
}

/// `a` comes before `b`: it is earlier, or as early and has the smaller identifier.
pub open spec fn key_before(a: SortKey, b: SortKey) -> bool {
    a.time < b.time || (a.time == b.time && a.id < b.id)
}

/// `a` stands before `b` in an arrangement: oldest first, or newest first.
pub open spec fn stands_before(a: SortKey, b: SortKey, newest_first: bool) -> bool {
    if newest_first {
        key_before(b, a)
    } else {
        key_before(a, b)
    }
}

/// No two keys have the same identifier.
pub open spec fn distinct_keys(keys: Seq<SortKey>) -> bool {
    forall|i: int, j: int|
        0 <= i < keys.len() && 0 <= j < keys.len() && keys[i].id == keys[j].id ==> i == j
}

/// `order` names every place of `keys` once, in the order in which the
/// keys are arranged.
pub open spec fn is_arrangement(keys: Seq<SortKey>, order: Seq<usize>, newest_first: bool) -> bool {
    &&& order.len() == keys.len()
    &&& forall|k: int| 0 <= k < order.len() ==> (#[trigger] order[k]) < keys.len()
    &&& forall|j: usize| j < keys.len() ==> #[trigger] order.contains(j)
    &&& forall|x: int, y: int|
        0 <= x < y < order.len() ==> stands_before(
            keys[order[x] as int],
            keys[order[y] as int],
            newest_first,
        )
}

fn before(a: &SortKey, b: &SortKey, newest_first: bool) -> (r: bool)
    ensures
        r == stands_before(*a, *b, newest_first),
{
    if newest_first {
        b.time < a.time || (b.time == a.time && b.id < a.id)
    } else {
        a.time < b.time || (a.time == b.time && a.id < b.id)
    }
}

/// The places of `keys` in the order of their keys: oldest first, or
/// newest first.
pub fn arrange(keys: &Vec<SortKey>, newest_first: bool) -> (order: Vec<usize>)
    requires
        distinct_keys(keys@),
    ensures
        is_arrangement(keys@, order@, newest_first),
{
    let mut order: Vec<usize> = Vec::new();
    let mut i: usize = 0;
    while i < keys.len()
        invariant
            i <= keys@.len(),
            distinct_keys(keys@),
            order@.len() == i,
            forall|k: int| 0 <= k < order@.len() ==> (#[trigger] order@[k]) < i,
            forall|j: usize| j < i ==> #[trigger] order@.contains(j),
            forall|x: int, y: int|
                0 <= x < y < order@.len() ==> stands_before(
                    keys@[order@[x] as int],
                    keys@[order@[y] as int],
                    newest_first,
                ),
        decreases keys@.len() - i,
    {
        let mut p: usize = 0;
        while p < order.len() && before(&keys[order[p]], &keys[i], newest_first)
            invariant
                p <= order@.len(),
                i < keys@.len(),
                forall|k: int| 0 <= k < order@.len() ==> (#[trigger] order@[k]) < i,
                forall|k: int|
                    0 <= k < p ==> stands_before(
                        keys@[order@[k] as int],
                        keys@[i as int],
                        newest_first,
                    ),
            decreases order@.len() - p,
        {
            p += 1;
        }
        let ghost prev = order@;
        order.insert(p, i);
        proof {
            let now = order@;
            assert(now =~= prev.insert(p as int, i));
            assert forall|j: usize| j < i + 1 implies #[trigger] now.contains(j) by {
                if j == i {
                    assert(now[p as int] == i);
                } else {
                    assert(prev.contains(j));
                    let k = choose|k: int| 0 <= k < prev.len() && prev[k] == j;
                    if k < p {
                        assert(now[k] == j);
                    } else {
                        assert(now[k + 1] == j);
                    }
                }
            }
            assert forall|k: int| 0 <= k < now.len() implies (#[trigger] now[k]) < i + 1 by {
                if k < p {
                    assert(now[k] == prev[k]);
                } else if k > p {
                    assert(now[k] == prev[k - 1]);
                }
            }
            assert forall|x: int, y: int| 0 <= x < y < now.len() implies stands_before(
                keys@[now[x] as int],
                keys@[now[y] as int],
                newest_first,
            ) by {
                let kx = keys@[now[x] as int];
                let ky = keys@[now[y] as int];
                if y < p {
                    assert(now[x] == prev[x] && now[y] == prev[y]);
                } else if y == p {
                    assert(now[x] == prev[x]);
                } else if x == p {
                    // The new key stands before all that it did not pass.
                    assert(now[y] == prev[y - 1]);
                    let first = keys@[prev[p as int] as int];
                    assert(prev[p as int] < i);
                    assert(!stands_before(first, keys@[i as int], newest_first));
                    assert(first.id != keys@[i as int].id);
                    if y - 1 > p {
                        assert(stands_before(first, ky, newest_first));
                    }
                } else if x < p {
                    assert(now[x] == prev[x] && now[y] == prev[y - 1]);
                } else {
                    assert(now[x] == prev[x - 1] && now[y] == prev[y - 1]);
                }
            }
        }
        i += 1;
    }
    order
}

} // verus!
