use vstd::prelude::*;
use crate::components::{Body, Draw};
use crate::effects::{BoltRequest, RockRequest};
use crate::physics::body_ok;
use crate::store::Store;

verus! {

/// The ids of `v`, each once, in order of first occurrence.
pub fn dedup_ids(v: &Vec<u64>) -> (r: Vec<u64>)
    ensures
        r@.no_duplicates(),
        forall|x: u64| r@.contains(x) <==> v@.contains(x),
{
    let mut r: Vec<u64> = Vec::new();
    let mut i: usize = 0;
    while i < v.len()
        invariant
            i <= v.len(),
            r@.no_duplicates(),
            forall|x: u64| r@.contains(x) <==> v@.take(i as int).contains(x),
        decreases v.len() - i,
    {
        let x = v[i];
        let mut found = false;
        let mut j: usize = 0;
        while j < r.len()
            invariant
                j <= r.len(),
                found == exists|k: int| 0 <= k < j && r[k] == x,
            decreases r.len() - j,
        {
            if r[j] == x {
                found = true;
            }
            j = j + 1;
        }
        let ghost r0 = r@;
        if !found {
            r.push(x);
            proof {
                assert forall|y| r@.contains(y) <==> (r0.contains(y) || y == x) by {
                    if r@.contains(y) {
                        let k = choose|k: int| 0 <= k < r@.len() && #[trigger] r@[k] == y;
                        if k < r0.len() {
                            assert(r0[k] == y);
                        }
                    }
                    if r0.contains(y) {
                        let k = choose|k: int| 0 <= k < r0.len() && #[trigger] r0[k] == y;
                        assert(r@[k] == y);
                    }
                    if y == x {
                        assert(r@[r0.len() as int] == y);
                    }
                }
            }
        } else {
            let ghost k = choose|k: int| 0 <= k < r0.len() && #[trigger] r0[k] == x;
            assert(r0[k] == x);
            assert(r0.contains(x));
        }
        proof {
            assert forall|y| r@.contains(y) <==> v@.take(i as int + 1).contains(y) by {
                if v@.take(i as int + 1).contains(y) {
                    let k = choose|k: int| 0 <= k < i + 1 && #[trigger] v@.take(i as int + 1)[k] == y;
                    if k < i {
                        assert(v@.take(i as int)[k] == y);
                    }
                }
                if v@.take(i as int).contains(y) {
                    let k = choose|k: int| 0 <= k < i && #[trigger] v@.take(i as int)[k] == y;
                    assert(v@.take(i as int + 1)[k] == y);
                }
                if y == x {
                    assert(v@.take(i as int + 1)[i as int] == y);
                }
                assert(v@.take(i as int + 1).contains(y) <==> (v@.take(i as int).contains(y) || y == x));
                assert(r0.contains(y) <==> v@.take(i as int).contains(y));
                if found {
                    assert(r@ == r0);
                } else {
                    assert(r@.contains(y) <==> (r0.contains(y) || y == x));
                }
            }
        }
        i = i + 1;
    }
    assert(v@.take(v.len() as int) == v@);
    r
}

/// The rock requests of `v`, each once, in order of first occurrence.
pub fn dedup_rocks(v: &Vec<RockRequest>) -> (r: Vec<RockRequest>)
    ensures
        r@.no_duplicates(),
        forall|x: RockRequest| r@.contains(x) <==> v@.contains(x),
{
    let mut r: Vec<RockRequest> = Vec::new();
    let mut i: usize = 0;
    while i < v.len()
        invariant
            i <= v.len(),
            r@.no_duplicates(),
            forall|x: RockRequest| r@.contains(x) <==> v@.take(i as int).contains(x),
        decreases v.len() - i,
    {
        let x = v[i];
        let mut found = false;
        let mut j: usize = 0;
        while j < r.len()
            invariant
                j <= r.len(),
                found == exists|k: int| 0 <= k < j && r[k] == x,
            decreases r.len() - j,
        {
            if r[j] == x {
                found = true;
            }
            j = j + 1;
        }
        let ghost r0 = r@;
        if !found {
            r.push(x);
            proof {
                assert forall|y| r@.contains(y) <==> (r0.contains(y) || y == x) by {
                    if r@.contains(y) {
                        let k = choose|k: int| 0 <= k < r@.len() && #[trigger] r@[k] == y;
                        if k < r0.len() {
                            assert(r0[k] == y);
                        }
                    }
                    if r0.contains(y) {
                        let k = choose|k: int| 0 <= k < r0.len() && #[trigger] r0[k] == y;
                        assert(r@[k] == y);
                    }
                    if y == x {
                        assert(r@[r0.len() as int] == y);
                    }
                }
            }
        } else {
            let ghost k = choose|k: int| 0 <= k < r0.len() && #[trigger] r0[k] == x;
            assert(r0[k] == x);
            assert(r0.contains(x));
        }
        proof {
            assert forall|y| r@.contains(y) <==> v@.take(i as int + 1).contains(y) by {
                if v@.take(i as int + 1).contains(y) {
                    let k = choose|k: int| 0 <= k < i + 1 && #[trigger] v@.take(i as int + 1)[k] == y;
                    if k < i {
                        assert(v@.take(i as int)[k] == y);
                    }
                }
                if v@.take(i as int).contains(y) {
                    let k = choose|k: int| 0 <= k < i && #[trigger] v@.take(i as int)[k] == y;
                    assert(v@.take(i as int + 1)[k] == y);
                }
                if y == x {
                    assert(v@.take(i as int + 1)[i as int] == y);
                }
                assert(v@.take(i as int + 1).contains(y) <==> (v@.take(i as int).contains(y) || y == x));
                assert(r0.contains(y) <==> v@.take(i as int).contains(y));
                if found {
                    assert(r@ == r0);
                } else {
                    assert(r@.contains(y) <==> (r0.contains(y) || y == x));
                }
            }
        }
        i = i + 1;
    }
    assert(v@.take(v.len() as int) == v@);
    r
}

/// The bolt requests of `v`, each once, in order of first occurrence.
pub fn dedup_bolts(v: &Vec<BoltRequest>) -> (r: Vec<BoltRequest>)
    ensures
        r@.no_duplicates(),
        forall|x: BoltRequest| r@.contains(x) <==> v@.contains(x),
{
    let mut r: Vec<BoltRequest> = Vec::new();
    let mut i: usize = 0;
    while i < v.len()
        invariant
            i <= v.len(),
            r@.no_duplicates(),
            forall|x: BoltRequest| r@.contains(x) <==> v@.take(i as int).contains(x),
        decreases v.len() - i,
    {
        let x = v[i];
        let mut found = false;
        let mut j: usize = 0;
        while j < r.len()
            invariant
                j <= r.len(),
                found == exists|k: int| 0 <= k < j && r[k] == x,
            decreases r.len() - j,
        {
            if r[j] == x {
                found = true;
            }
            j = j + 1;
        }
        let ghost r0 = r@;
        if !found {
            r.push(x);
            proof {
                assert forall|y| r@.contains(y) <==> (r0.contains(y) || y == x) by {
                    if r@.contains(y) {
                        let k = choose|k: int| 0 <= k < r@.len() && #[trigger] r@[k] == y;
                        if k < r0.len() {
                            assert(r0[k] == y);
                        }
                    }
                    if r0.contains(y) {
                        let k = choose|k: int| 0 <= k < r0.len() && #[trigger] r0[k] == y;
                        assert(r@[k] == y);
                    }
                    if y == x {
                        assert(r@[r0.len() as int] == y);
                    }
                }
            }
        } else {
            let ghost k = choose|k: int| 0 <= k < r0.len() && #[trigger] r0[k] == x;
            assert(r0[k] == x);
            assert(r0.contains(x));
        }
        proof {
            assert forall|y| r@.contains(y) <==> v@.take(i as int + 1).contains(y) by {
                if v@.take(i as int + 1).contains(y) {
                    let k = choose|k: int| 0 <= k < i + 1 && #[trigger] v@.take(i as int + 1)[k] == y;
                    if k < i {
                        assert(v@.take(i as int)[k] == y);
                    }
                }
                if v@.take(i as int).contains(y) {
                    let k = choose|k: int| 0 <= k < i && #[trigger] v@.take(i as int)[k] == y;
                    assert(v@.take(i as int + 1)[k] == y);
                }
                if y == x {
                    assert(v@.take(i as int + 1)[i as int] == y);
                }
                assert(v@.take(i as int + 1).contains(y) <==> (v@.take(i as int).contains(y) || y == x));
                assert(r0.contains(y) <==> v@.take(i as int).contains(y));
                if found {
                    assert(r@ == r0);
                } else {
                    assert(r@.contains(y) <==> (r0.contains(y) || y == x));
                }
            }
        }
        i = i + 1;
    }
    assert(v@.take(v.len() as int) == v@);
    r
}

/// Despawns every id of `ids`; ids that are not live are ignored.
pub fn despawn_all(store: &mut Store, ids: &Vec<u64>)
    requires
        old(store).wf(),
    ensures
        final(store).wf(),
        forall|k: u64| #[trigger] final(store)@.contains_key(k) <==> old(store)@.contains_key(k) && !ids@.contains(k),
        forall|k: u64| #[trigger] final(store)@.contains_key(k) ==> final(store)@[k] == old(store)@[k],
{
    let mut i: usize = 0;
    while i < ids.len()
        invariant
            i <= ids.len(),
            forall|k: u64| #[trigger] store@.contains_key(k) <==> old(store)@.contains_key(k) && !ids@.take(i as int).contains(k),
            forall|k: u64| #[trigger] store@.contains_key(k) ==> store@[k] == old(store)@[k],
            store.wf(),
        decreases ids.len() - i,
    {
        let id = ids[i];
        let ghost prev = store@;
        store.despawn(id);
        assert(store@.dom() =~= prev.dom().remove(id));
        assert forall|k: u64| #[trigger] store@.contains_key(k) implies body_ok(store@[k]) by {
            assert(prev.contains_key(k));
        }
        proof {
            assert forall|y: u64| ids@.take(i as int + 1).contains(y) <==> (ids@.take(i as int).contains(y) || y == id) by {
                if ids@.take(i as int + 1).contains(y) {
                    let k = choose|k: int| 0 <= k < i + 1 && #[trigger] ids@.take(i as int + 1)[k] == y;
                    if k < i {
                        assert(ids@.take(i as int)[k] == y);
                    }
                }
                if ids@.take(i as int).contains(y) {
                    let k = choose|k: int| 0 <= k < i && #[trigger] ids@.take(i as int)[k] == y;
                    assert(ids@.take(i as int + 1)[k] == y);
                }
                if y == id {
                    assert(ids@.take(i as int + 1)[i as int] == y);
                }
            }
        }
        assert forall|k: u64| #[trigger] store@.contains_key(k) <==> old(store)@.contains_key(k) && !ids@.take(i as int + 1).contains(k) by {
            assert(store@.contains_key(k) <==> prev.contains_key(k) && k != id);
        }
        i = i + 1;
    }
    assert(ids@.take(ids.len() as int) == ids@);
}

/// Spawns each body with its drawing; returns the new ids, in order.
pub fn spawn_all(store: &mut Store, bodies: &Vec<(Body, Draw)>) -> (created: Vec<u64>)
    requires
        old(store).wf(),
        forall|i: int| 0 <= i < bodies.len() ==> body_ok(#[trigger] bodies[i].0),
    ensures
        final(store).wf(),
        created.len() == bodies.len(),
        forall|k: u64| #[trigger] old(store)@.contains_key(k) ==> final(store)@.contains_key(k) && final(store)@[k] == old(store)@[k],
        forall|i: int| 0 <= i < created.len() ==> !old(store)@.contains_key(#[trigger] created[i])
            && final(store)@.contains_key(created[i]) && final(store)@[created[i]] == bodies[i].0,
        forall|k: u64| #[trigger] final(store)@.contains_key(k) ==> old(store)@.contains_key(k) || created@.contains(k),
{
    let mut created: Vec<u64> = Vec::new();
    let mut i: usize = 0;
    while i < bodies.len()
        invariant
            i <= bodies.len(),
            created.len() == i,
            store.wf(),
            forall|j: int| 0 <= j < bodies.len() ==> body_ok(#[trigger] bodies[j].0),
            forall|k: u64| #[trigger] old(store)@.contains_key(k) ==> store@.contains_key(k) && store@[k] == old(store)@[k],
            forall|j: int| 0 <= j < i ==> !old(store)@.contains_key(#[trigger] created[j])
                && store@.contains_key(created[j]) && store@[created[j]] == bodies[j].0,
            forall|k: u64| #[trigger] store@.contains_key(k) ==> old(store)@.contains_key(k) || created@.contains(k),
        decreases bodies.len() - i,
    {
        let body = bodies[i].0;
        let draw = bodies[i].1.clone();
        let ghost prev_store = store@;
        let ghost prev_created = created@;
        let id = store.spawn(body, draw);
        assert(store@.dom() =~= prev_store.dom().insert(id));
        created.push(id);
        proof {
            assert(created@[i as int] == id);
            assert forall|k: u64| #[trigger] store@.contains_key(k) implies old(store)@.contains_key(k) || created@.contains(k) by {
                if k == id {
                    assert(created@[i as int] == k);
                } else {
                    assert(prev_store.contains_key(k));
                    if !old(store)@.contains_key(k) {
                        assert(prev_created.contains(k));
                        let j = choose|j: int| 0 <= j < prev_created.len() && #[trigger] prev_created[j] == k;
                        assert(created@[j] == k);
                    }
                }
            }
        }
        i = i + 1;
    }
    created
}

} // verus!
