use vstd::prelude::*;
use crate::components::{Body, Draw};
use crate::physics::body_ok;

verus! {

#[verifier::external_type_specification]
#[verifier::external_body]
pub struct ExWorld(hecs::World);

/// What a hecs world holds: the `Body` component of each live entity that has one, keyed
/// by the entity's bits (`Entity::to_bits`).
pub uninterp spec fn world_bodies(w: hecs::World) -> Map<u64, Body>;

/// What a hecs world holds besides bodies: the `Draw` component of each live entity that
/// has one, keyed by the entity's bits.
pub uninterp spec fn world_drawings(w: hecs::World) -> Map<u64, Draw>;

/// A store with no drawings.
pub open spec fn no_drawings() -> Map<u64, Draw> {
    Map::empty()
}

/// A store with no entities.
pub open spec fn no_bodies() -> Map<u64, Body> {
    Map::empty()
}

/// Relies on hecs::World::new: a world with no entities.
#[verifier::external_body]
fn world_new() -> (r: hecs::World)
    ensures
        world_bodies(r) == no_bodies(),
        world_drawings(r) == no_drawings(),
{
    hecs::World::new()
}

/// Relies on hecs::World::spawn: the new entity is live, distinct from every live entity,
/// and carries the given components.
#[verifier::external_body]
fn world_spawn(w: &mut hecs::World, body: Body, draw: Draw) -> (id: u64)
    ensures
        !world_bodies(*old(w)).contains_key(id),
        world_bodies(*final(w)) == world_bodies(*old(w)).insert(id, body),
        world_drawings(*final(w)) == world_drawings(*old(w)).insert(id, draw),
{
    w.spawn((body, draw)).to_bits().get()
}

/// Relies on hecs::Entity::from_bits and hecs::World::despawn: the entity with these bits
/// is removed if live; otherwise nothing changes.
#[verifier::external_body]
fn world_despawn(w: &mut hecs::World, id: u64)
    ensures
        world_bodies(*final(w)) == world_bodies(*old(w)).remove(id),
        world_drawings(*final(w)) == world_drawings(*old(w)).remove(id),
{
    if let Some(e) = hecs::Entity::from_bits(id) {
        let _ = w.despawn(e);
    }
}

/// Relies on hecs::World::clear: every entity is removed.
#[verifier::external_body]
fn world_clear(w: &mut hecs::World)
    ensures
        world_bodies(*final(w)) == no_bodies(),
        world_drawings(*final(w)) == no_drawings(),
{
    w.clear();
}

/// Relies on hecs::World::query over `&Body`: each live entity with a `Body` once, in an
/// order that hecs chooses.
#[verifier::external_body]
fn world_bodies_list(w: &hecs::World) -> (r: Vec<(u64, Body)>)
    ensures
        forall|i: int| 0 <= i < r.len() ==> world_bodies(*w).contains_key(#[trigger] r[i].0) && world_bodies(*w)[r[i].0] == r[i].1,
        forall|i: int, j: int| 0 <= i < j < r.len() ==> r[i].0 != r[j].0,
        forall|k: u64| world_bodies(*w).contains_key(k) ==> exists|i: int| 0 <= i < r.len() && #[trigger] r[i].0 == k,
{
    w.query::<&Body>().iter().map(|(e, b)| (e.to_bits().get(), *b)).collect()
}

/// Relies on hecs::Entity::from_bits and hecs::World::get for `&mut Body`: the body of a
/// live entity is replaced; otherwise nothing changes.
#[verifier::external_body]
fn world_set_body(w: &mut hecs::World, id: u64, body: Body)
    ensures
        world_bodies(*final(w)) == if world_bodies(*old(w)).contains_key(id) {
            world_bodies(*old(w)).insert(id, body)
        } else {
            world_bodies(*old(w))
        },
        world_drawings(*final(w)) == world_drawings(*old(w)),
{
    if let Some(e) = hecs::Entity::from_bits(id) {
        if let Ok(mut b) = w.get::<&mut Body>(e) {
            *b = body;
        }
    }
}

/// The entity store: a hecs world whose entities each carry a `Body` and a `Draw`.
pub struct Store {
    world: hecs::World,
}

impl Store {
    /// The bodies of the live entities, by id.
    pub closed spec fn view(&self) -> Map<u64, Body> {
        world_bodies(self.world)
    }

    /// The drawings of the live entities, by id.
    pub closed spec fn drawings(&self) -> Map<u64, Draw> {
        world_drawings(self.world)
    }

    pub open spec fn wf(&self) -> bool {
        &&& forall|k: u64| #[trigger] self@.contains_key(k) ==> body_ok(self@[k])
        &&& self@.dom().finite()
    }

    /// An empty store.
    pub fn new() -> (r: Store)
        ensures
            r@ == Map::<u64, Body>::empty(),
            r.drawings() == Map::<u64, Draw>::empty(),
            r.wf(),
    {
        Store { world: world_new() }
    }

    /// The underlying world, for readers such as a renderer.
    pub fn world(&self) -> &hecs::World {
        &self.world
    }

    /// Adds an entity; returns its fresh id.
    pub fn spawn(&mut self, body: Body, draw: Draw) -> (id: u64)
        ensures
            !old(self)@.contains_key(id),
            final(self)@ == old(self)@.insert(id, body),
            final(self).drawings() == old(self).drawings().insert(id, draw),
    {
        world_spawn(&mut self.world, body, draw)
    }

    /// Removes an entity; an id that is not live is ignored.
    pub fn despawn(&mut self, id: u64)
        ensures
            final(self)@ == old(self)@.remove(id),
            final(self).drawings() == old(self).drawings().remove(id),
    {
        world_despawn(&mut self.world, id)
    }

    /// Removes every entity.
    pub fn clear(&mut self)
        ensures
            final(self)@ == Map::<u64, Body>::empty(),
            final(self).drawings() == Map::<u64, Draw>::empty(),
    {
        world_clear(&mut self.world)
    }

    /// Replaces the body of a live entity; an id that is not live is ignored.
    pub fn set(&mut self, id: u64, body: Body)
        ensures
            final(self)@ == if old(self)@.contains_key(id) { old(self)@.insert(id, body) } else { old(self)@ },
            final(self).drawings() == old(self).drawings(),
    {
        world_set_body(&mut self.world, id, body)
    }

    /// A copy of every live entity's id and body, each once.
    pub fn entities(&self) -> (r: Vec<(u64, Body)>)
        ensures
            forall|i: int| 0 <= i < r.len() ==> self@.contains_key(#[trigger] r[i].0) && self@[r[i].0] == r[i].1,
            forall|i: int, j: int| 0 <= i < j < r.len() ==> r[i].0 != r[j].0,
            forall|k: u64| self@.contains_key(k) ==> exists|i: int| 0 <= i < r.len() && #[trigger] r[i].0 == k,
    {
        world_bodies_list(&self.world)
    }
}

} // verus!
