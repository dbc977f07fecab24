//! Choosing the nearest hit of a scene query.
//!
//! A scene answers a ray query by asking each of its members in turn and
//! keeping the hit with the smallest ray parameter. Each member's answer is
//! given here as an order key of that parameter, or `None` where the member
//! was not hit. A key compares as the parameter it stands for (see
//! `crate::sphere` for how a key is taken).
use vstd::prelude::*;
use crate::trace::{Bounce, Step, step_of};

verus! {

/// No member of the scene reported a hit.
pub open spec fn no_hit(keys: Seq<Option<i32>>) -> bool {
    forall|i: int| 0 <= i < keys.len() ==> (#[trigger] keys[i]) is None
}

/// Member `k` holds the nearest hit: no other hit is nearer, and every
/// member before it is strictly farther (the first of equal hits wins).
pub open spec fn is_nearest(keys: Seq<Option<i32>>, k: int) -> bool {
    &&& 0 <= k < keys.len()
    &&& keys[k] is Some
    &&& forall|i: int| 0 <= i < keys.len() && (#[trigger] keys[i]) is Some
        ==> keys[k]->0 <= keys[i]->0
    &&& forall|i: int| 0 <= i < k && (#[trigger] keys[i]) is Some ==> keys[k]->0 < keys[i]->0
}

/// Scans the members' answers once and returns the member whose hit is
/// nearest, or `None` when no member was hit.
pub fn nearest_hit(keys: &Vec<Option<i32>>) -> (r: Option<usize>)
    ensures
        r is None <==> no_hit(keys@),
        r matches Some(k) ==> is_nearest(keys@, k as int),
{
    let mut best: Option<usize> = None;
    let mut best_key: i32 = 0;
    let mut i: usize = 0;
    while i < keys.len()
        invariant
            0 <= i <= keys@.len(),
            best is None <==> no_hit(keys@.take(i as int)),
            best matches Some(k) ==> is_nearest(keys@.take(i as int), k as int)
                && keys@[k as int] == Some(best_key),
        decreases keys@.len() - i,
    {
        let ghost prev = keys@.take(i as int);
        let ghost next = keys@.take(i + 1);
        assert(next == prev.push(keys@[i as int]));
        match keys[i] {
            Some(key) => {
                match best {
                    Some(k) => {
                        if key < best_key {
                            best = Some(i);
                            best_key = key;
                        }
                    },
                    None => {
                        best = Some(i);
                        best_key = key;
                    },
                }
            },
            None => {},
        }
        proof {
            if best is None {
                assert forall|j: int| 0 <= j < next.len() implies (#[trigger] next[j]) is None by {
                    if j < prev.len() {
                        assert(next[j] == prev[j]);
                    }
                }
            } else {
                assert(!no_hit(next)) by {
                    let k = best->0 as int;
                    assert(next[k] is Some);
                }
            }
        }
        i = i + 1;
    }
    assert(keys@.take(keys@.len() as int) == keys@);
    best
}

/// A ray that every member misses yields no hit record, and its path stops
/// with the sky gradient, whatever its depth and bounce limit.
pub proof fn lemma_miss_shows_sky(keys: Seq<Option<i32>>, depth: nat, max_depth: nat)
    requires
        no_hit(keys),
    ensures
        forall|k: int| !is_nearest(keys, k),
        step_of(depth, max_depth, Bounce::Miss) == Step::Sky,
{
    assert forall|k: int| !is_nearest(keys, k) by {
        if 0 <= k < keys.len() {
            assert(keys[k] is None);
        }
    }
}

} // verus!
