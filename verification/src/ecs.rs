//! Entity lifecycle and component storage on a `specs` world.
//!
//! The world itself is the `specs` crate's. This module states what its calls
//! do to the entities and to the two component tables the library owns, and
//! builds the two-phase delete on top: an entity is first marked, which takes
//! it out of the living at once and leaves its components in place, and is
//! collected at the next [`maintain`].
//!
//! An entity is identified in contracts by its key: index and generation.

use vstd::prelude::*;
use crate::components::Brick;
use crate::components::MarkedForRemoval;

verus! {

#[verifier::external_type_specification]
#[verifier::external_body]
pub struct ExWorld(specs::World);

#[verifier::external_type_specification]
#[verifier::external_body]
pub struct ExEntity(specs::Entity);

/// Index and generation of an entity.
pub type EntityKey = (u32, i32);

/// How many entities a new world has room for: two to the twentieth. An
/// index below that lies within every bit set of `specs`, on a machine of
/// thirty-two bits as on one of sixty-four, where the sets end at two to
/// the twenty-fourth.
pub const WORLD_ROOM: u32 = 0x10_0000;

/// The index of an entity handle: what `Entity::id` returns.
pub uninterp spec fn entity_index(e: specs::Entity) -> u32;

/// The generation of an entity handle: what `Entity::gen` returns, as the
/// number that `Generation::id` gives for it.
pub uninterp spec fn entity_generation(e: specs::Entity) -> i32;

/// Whether the world was made by `World::new`, has the component types
/// `MarkedForRemoval` and `Brick` registered, and has neither an entity made
/// through `EntitiesRes::create` nor a `LazyUpdate` waiting for `maintain`.
pub uninterp spec fn world_ready(w: specs::World) -> bool;

/// How many more entities the world is known to have room for before an
/// index could leave the bit sets of `specs` or a generation counter could
/// run out.
pub uninterp spec fn world_headroom(w: specs::World) -> nat;

/// The keys of the entities that `World::is_alive` reports alive.
pub uninterp spec fn world_entities(w: specs::World) -> Set<EntityKey>;

/// The keys of all entities the world has created so far, alive or not.
pub uninterp spec fn world_issued(w: specs::World) -> Set<EntityKey>;

/// The keys of the living entities whose deletion was asked for with
/// `EntitiesRes::delete` and is carried out by the next `maintain`.
pub uninterp spec fn world_doomed(w: specs::World) -> Set<EntityKey>;

/// The keys of the living entities that hold a `MarkedForRemoval`.
pub uninterp spec fn world_marked(w: specs::World) -> Set<EntityKey>;

/// The `Brick` of each living entity that holds one, by the entity's key.
pub uninterp spec fn world_bricks(w: specs::World) -> Map<EntityKey, Brick>;

/// The empty brick table.
pub open spec fn no_bricks() -> Map<EntityKey, Brick> {
    Map::empty()
}

/// Whether the generation of `k` lies above every generation that was
/// created on the index of `k`.
pub open spec fn above_issued(issued: Set<EntityKey>, k: EntityKey) -> bool {
    forall|earlier: EntityKey| issued.contains(earlier) && earlier.0 == k.0 ==> earlier.1 < k.1
}

/// The key of an entity handle.
pub open spec fn key_of(e: specs::Entity) -> EntityKey {
    (entity_index(e), entity_generation(e))
}

/// The keys of a list of entity handles, in the list's order.
pub open spec fn keys_of(list: Seq<specs::Entity>) -> Seq<EntityKey> {
    Seq::new(list.len(), |i: int| key_of(list[i]))
}

/// Keys in strictly ascending order of index.
pub open spec fn ascending(keys: Seq<EntityKey>) -> bool {
    forall|i: int, j: int| 0 <= i < j < keys.len() ==> keys[i].0 < keys[j].0
}

/// `keys` lists exactly the members of `set`, in ascending order of index.
pub open spec fn lists(keys: Seq<EntityKey>, set: Set<EntityKey>) -> bool {
    &&& ascending(keys)
    &&& forall|i: int| 0 <= i < keys.len() ==> set.contains(#[trigger] keys[i])
    &&& forall|k: EntityKey| set.contains(k) ==> keys.contains(k)
}

/// What the contracts of this module say of a world.
pub struct WorldState {
    /// Keys of the entities that are in the world, pending ones included.
    pub entities: Set<EntityKey>,
    /// Keys of the entities that were ever created.
    pub issued: Set<EntityKey>,
    /// Keys that `specs` will delete at its next maintain.
    pub doomed: Set<EntityKey>,
    /// Keys of the entities marked for removal.
    pub marked: Set<EntityKey>,
    /// The bricks, by key.
    pub bricks: Map<EntityKey, Brick>,
    /// Entities that can still be created.
    pub headroom: nat,
}

/// The state of a world.
pub open spec fn state_of(w: specs::World) -> WorldState {
    WorldState {
        entities: world_entities(w),
        issued: world_issued(w),
        doomed: world_doomed(w),
        marked: world_marked(w),
        bricks: world_bricks(w),
        headroom: world_headroom(w),
    }
}

impl WorldState {
    /// Everything that is noted, marked or a brick is in the world, what is
    /// in the world was created, and every generation in the world is a live
    /// one.
    pub open spec fn consistent(self) -> bool {
        &&& self.entities.subset_of(self.issued)
        &&& self.doomed.subset_of(self.entities)
        &&& self.marked.subset_of(self.entities)
        &&& self.bricks.dom().subset_of(self.entities)
        &&& forall|k: EntityKey| self.entities.contains(k) ==> k.1 > 0
    }

    /// Whether `k` is in the world, pending removal or not.
    pub open spec fn present(self, k: EntityKey) -> bool {
        self.entities.contains(k)
    }

    /// Whether `k` is alive: in the world and not marked for removal.
    pub open spec fn alive(self, k: EntityKey) -> bool {
        self.entities.contains(k) && !self.marked.contains(k)
    }

    /// The keys that the next `maintain` takes out of the world.
    pub open spec fn pending(self) -> Set<EntityKey> {
        self.doomed.union(self.marked)
    }

    /// The brick at `k`, if there is one.
    pub open spec fn brick(self, k: EntityKey) -> Option<Brick> {
        if self.bricks.dom().contains(k) {
            Some(self.bricks[k])
        } else {
            None
        }
    }

    /// The state once a new entity with key `k` has been created.
    pub open spec fn after_create(self, k: EntityKey) -> WorldState {
        WorldState {
            entities: self.entities.insert(k),
            issued: self.issued.insert(k),
            headroom: (self.headroom - 1) as nat,
            ..self
        }
    }

    /// The state once `k` has been destroyed: a living entity is marked,
    /// anything else leaves the state as it is.
    pub open spec fn after_destroy(self, k: EntityKey) -> WorldState {
        if self.alive(k) {
            WorldState { marked: self.marked.insert(k), ..self }
        } else {
            self
        }
    }

    /// The state once the marked entities have been noted for deletion.
    pub open spec fn after_cleanup(self) -> WorldState {
        WorldState { doomed: self.pending(), ..self }
    }

    /// The state after `maintain`: what was pending is gone, with its
    /// components.
    pub open spec fn after_maintain(self) -> WorldState {
        WorldState {
            entities: self.entities.difference(self.pending()),
            doomed: Set::empty(),
            marked: Set::empty(),
            bricks: self.bricks.remove_keys(self.pending()),
            ..self
        }
    }

    /// The state once `brick` has been put on `k`: stored where `k` is in the
    /// world, dropped where it is not.
    pub open spec fn after_insert_brick(self, k: EntityKey, brick: Brick) -> WorldState {
        if self.present(k) {
            WorldState { bricks: self.bricks.insert(k, brick), ..self }
        } else {
            self
        }
    }

    /// The state once the brick at `k` has been taken away.
    pub open spec fn after_remove_brick(self, k: EntityKey) -> WorldState {
        WorldState { bricks: self.bricks.remove(k), ..self }
    }

    /// The state once the brick at `k` has been hit: a living brick that
    /// needs more than one hit needs one less, one that needs no more than
    /// one is marked for removal, and a hit on anything else changes nothing.
    pub open spec fn after_hit(self, k: EntityKey) -> WorldState {
        if self.alive(k) && self.bricks.dom().contains(k) {
            let brick = self.bricks[k];
            if brick.hits_required > 1 {
                WorldState {
                    bricks: self.bricks.insert(
                        k,
                        Brick { hits_required: (brick.hits_required - 1) as i32, points: brick.points },
                    ),
                    ..self
                }
            } else {
                WorldState {
                    bricks: self.bricks.insert(k, Brick { hits_required: 0, points: brick.points }),
                    marked: self.marked.insert(k),
                    ..self
                }
            }
        } else {
            self
        }
    }
}

/// A world this module can work on: ready, and consistent.
pub open spec fn wf(w: specs::World) -> bool {
    world_ready(w) && state_of(w).consistent()
}

/// Whether `e` is in the world, pending removal or not.
pub open spec fn present(w: specs::World, e: specs::Entity) -> bool {
    state_of(w).present(key_of(e))
}

/// Whether `e` is alive: in the world and not marked for removal.
pub open spec fn alive(w: specs::World, e: specs::Entity) -> bool {
    state_of(w).alive(key_of(e))
}

/// Calls `World::new` and registers `MarkedForRemoval` and `Brick` with
/// `World::register`. The new world is ready, holds no entity and no
/// component, has created none, and has room for [`WORLD_ROOM`] entities:
/// each creation raises one generation counter by one and uses at most one
/// new index, so that after so many creations every index lies below
/// `WORLD_ROOM`, where `hibitset` panics on none (`BitSet::add` above
/// `MAX_EID`, `AtomicBitSet::add_atomic` beyond its fixed blocks), and
/// every generation lies far below the end of an `i32`.
#[verifier::external_body]
fn new_world() -> (fresh: specs::World)
    ensures
        world_ready(fresh),
        world_headroom(fresh) == WORLD_ROOM,
        world_entities(fresh) == Set::<EntityKey>::empty(),
        world_issued(fresh) == Set::<EntityKey>::empty(),
        world_doomed(fresh) == Set::<EntityKey>::empty(),
        world_marked(fresh) == Set::<EntityKey>::empty(),
        world_bricks(fresh) == no_bricks(),
{
    let mut world = <specs::World as specs::WorldExt>::new();
    specs::WorldExt::register::<MarkedForRemoval>(&mut world);
    specs::WorldExt::register::<Brick>(&mut world);
    world
}

/// Calls `Entity::id`.
#[verifier::external_body]
fn index_of(e: specs::Entity) -> (index: u32)
    ensures
        index == entity_index(e),
{
    e.id()
}

/// Calls `Entity::gen` and `Generation::id`.
#[verifier::external_body]
fn generation_of(e: specs::Entity) -> (generation: i32)
    ensures
        generation == entity_generation(e),
{
    e.gen().id()
}

/// Calls `World::create_entity` and `Builder::build`: allocates an entity at
/// once, on a free index with that index's generation raised by one. So its
/// key was never created before, its generation is positive and above every
/// generation that was created on its index, and nothing else changes.
/// `specs` panics when it has no index or generation left, and `hibitset`
/// on an index beyond its sets, which the headroom rules out.
#[verifier::external_body]
fn world_create(world: &mut specs::World) -> (e: specs::Entity)
    requires
        world_ready(*old(world)),
        world_headroom(*old(world)) > 0,
    ensures
        world_ready(*final(world)),
        entity_generation(e) > 0,
        !world_issued(*old(world)).contains(key_of(e)),
        above_issued(world_issued(*old(world)), key_of(e)),
        state_of(*final(world)) == (WorldState {
            entities: world_entities(*old(world)).insert(key_of(e)),
            issued: world_issued(*old(world)).insert(key_of(e)),
            headroom: (world_headroom(*old(world)) - 1) as nat,
            ..state_of(*old(world))
        }),
{
    specs::Builder::build(specs::WorldExt::create_entity(world))
}

/// Calls `World::is_alive`, which panics on a handle with a dead generation.
#[verifier::external_body]
fn world_is_alive(world: &specs::World, e: specs::Entity) -> (yes: bool)
    requires
        world_ready(*world),
        entity_generation(e) > 0,
    ensures
        yes == world_entities(*world).contains(key_of(e)),
{
    specs::WorldExt::is_alive(world, e)
}

/// Calls `EntitiesRes::delete` on the world's entities: the entity is noted
/// for deletion and stays in the world, with its components, until the next
/// `World::maintain`. The index of an entity of a ready world lies within
/// the set that notes it.
#[verifier::external_body]
fn world_doom(world: &mut specs::World, e: specs::Entity)
    requires
        world_ready(*old(world)),
        entity_generation(e) > 0,
        world_entities(*old(world)).contains(key_of(e)),
    ensures
        world_ready(*final(world)),
        state_of(*final(world)) == (WorldState {
            doomed: world_doomed(*old(world)).insert(key_of(e)),
            ..state_of(*old(world))
        }),
{
    let _ = specs::WorldExt::entities(&*world).delete(e);
}

/// Calls `World::maintain`: every entity noted for deletion leaves the world,
/// and every registered storage drops the components of those entities.
#[verifier::external_body]
fn world_maintain(world: &mut specs::World)
    requires
        world_ready(*old(world)),
    ensures
        world_ready(*final(world)),
        state_of(*final(world)) == (WorldState {
            entities: world_entities(*old(world)).difference(world_doomed(*old(world))),
            doomed: Set::<EntityKey>::empty(),
            marked: world_marked(*old(world)).difference(world_doomed(*old(world))),
            bricks: world_bricks(*old(world)).remove_keys(world_doomed(*old(world))),
            ..state_of(*old(world))
        }),
{
    specs::WorldExt::maintain(world);
}

/// Calls `Storage::insert` on the `MarkedForRemoval` storage, for an entity
/// that is in the world.
#[verifier::external_body]
fn marks_insert(world: &mut specs::World, e: specs::Entity)
    requires
        world_ready(*old(world)),
        entity_generation(e) > 0,
        world_entities(*old(world)).contains(key_of(e)),
    ensures
        world_ready(*final(world)),
        state_of(*final(world)) == (WorldState {
            marked: world_marked(*old(world)).insert(key_of(e)),
            ..state_of(*old(world))
        }),
{
    let _ = specs::WorldExt::write_storage::<MarkedForRemoval>(&*world).insert(e, MarkedForRemoval);
}

/// Calls `Storage::contains` on the `MarkedForRemoval` storage.
#[verifier::external_body]
fn marks_contains(world: &specs::World, e: specs::Entity) -> (yes: bool)
    requires
        world_ready(*world),
    ensures
        yes == world_marked(*world).contains(key_of(e)),
{
    specs::WorldExt::read_storage::<MarkedForRemoval>(world).contains(e)
}

/// Calls `Join::join` on the world's entities together with the
/// `MarkedForRemoval` storage: the marked entities, by ascending index.
#[verifier::external_body]
fn marks_join(world: &specs::World) -> (list: Vec<specs::Entity>)
    requires
        world_ready(*world),
    ensures
        lists(keys_of(list@), world_marked(*world)),
        forall|i: int| 0 <= i < list.len() ==> entity_generation(#[trigger] list[i]) > 0,
{
    let entities = specs::WorldExt::entities(world);
    let marks = specs::WorldExt::read_storage::<MarkedForRemoval>(world);
    specs::Join::join((&entities, &marks)).map(|(e, _)| e).collect()
}

/// Calls `Storage::insert` on the `Brick` storage, for an entity that is in
/// the world: the entity's brick is `brick` from now on, whether or not it
/// had one.
#[verifier::external_body]
fn bricks_insert(world: &mut specs::World, e: specs::Entity, brick: Brick)
    requires
        world_ready(*old(world)),
        entity_generation(e) > 0,
        world_entities(*old(world)).contains(key_of(e)),
    ensures
        world_ready(*final(world)),
        state_of(*final(world)) == (WorldState {
            bricks: world_bricks(*old(world)).insert(key_of(e), brick),
            ..state_of(*old(world))
        }),
{
    let _ = specs::WorldExt::write_storage::<Brick>(&*world).insert(e, brick);
}

/// Calls `Storage::get` on the `Brick` storage and copies the brick out.
#[verifier::external_body]
fn bricks_get(world: &specs::World, e: specs::Entity) -> (found: Option<Brick>)
    requires
        world_ready(*world),
    ensures
        found == brick_at(*world, e),
{
    specs::WorldExt::read_storage::<Brick>(world).get(e).copied()
}

/// Calls `Storage::remove` on the `Brick` storage.
#[verifier::external_body]
fn bricks_remove(world: &mut specs::World, e: specs::Entity) -> (taken: Option<Brick>)
    requires
        world_ready(*old(world)),
    ensures
        world_ready(*final(world)),
        taken == brick_at(*old(world), e),
        state_of(*final(world)) == (WorldState {
            bricks: world_bricks(*old(world)).remove(key_of(e)),
            ..state_of(*old(world))
        }),
{
    specs::WorldExt::write_storage::<Brick>(&*world).remove(e)
}

/// Calls `Join::join` on the world's entities together with the `Brick`
/// storage: the entities that hold a brick, by ascending index.
#[verifier::external_body]
fn bricks_join(world: &specs::World) -> (list: Vec<specs::Entity>)
    requires
        world_ready(*world),
    ensures
        lists(keys_of(list@), world_bricks(*world).dom()),
        forall|i: int| 0 <= i < list.len() ==> entity_generation(#[trigger] list[i]) > 0,
{
    let entities = specs::WorldExt::entities(world);
    let bricks = specs::WorldExt::read_storage::<Brick>(world);
    specs::Join::join((&entities, &bricks)).map(|(e, _)| e).collect()
}

/// The brick that `e` holds in `w`, if it holds one.
pub open spec fn brick_at(w: specs::World, e: specs::Entity) -> Option<Brick> {
    if world_bricks(w).dom().contains(key_of(e)) {
        Some(world_bricks(w)[key_of(e)])
    } else {
        None
    }
}

/// What a hit did to a brick.
#[derive(Debug, Clone, Copy, PartialEq, Eq, Structural)]
pub enum BrickHit {
    /// There was no living brick to hit.
    Missed,
    /// The brick took the hit and needs `hits_left` more.
    Damaged { hits_left: i32 },
    /// The brick is marked for removal; it was worth `points`.
    Destroyed { points: i32 },
}

/// What a hit on `k` amounts to in state `s`.
pub open spec fn hit_outcome(s: WorldState, k: EntityKey) -> BrickHit {
    if s.alive(k) && s.bricks.dom().contains(k) {
        if s.bricks[k].hits_required > 1 {
            BrickHit::Damaged { hits_left: (s.bricks[k].hits_required - 1) as i32 }
        } else {
            BrickHit::Destroyed { points: s.bricks[k].points }
        }
    } else {
        BrickHit::Missed
    }
}

/// A new world with the library's component types registered, holding
/// nothing.
pub fn init() -> (world: specs::World)
    ensures
        wf(world),
        world_entities(world) == Set::<EntityKey>::empty(),
        world_issued(world) == Set::<EntityKey>::empty(),
        world_doomed(world) == Set::<EntityKey>::empty(),
        world_marked(world) == Set::<EntityKey>::empty(),
        world_bricks(world) == no_bricks(),
        world_headroom(world) == WORLD_ROOM,
{
    new_world()
}

/// The index of an entity handle.
pub fn entity_id(e: specs::Entity) -> (index: u32)
    ensures
        index == entity_index(e),
{
    index_of(e)
}

/// Creates an entity. It is alive and holds no component. Where it takes
/// the index of an entity that is gone, its generation is higher: its key was
/// never created before, so no handle of an earlier entity becomes valid
/// again.
pub fn create_entity(world: &mut specs::World) -> (e: specs::Entity)
    requires
        wf(*old(world)),
        world_headroom(*old(world)) > 0,
    ensures
        wf(*final(world)),
        !world_issued(*old(world)).contains(key_of(e)),
        above_issued(world_issued(*old(world)), key_of(e)),
        alive(*final(world), e),
        state_of(*final(world)) == state_of(*old(world)).after_create(key_of(e)),
{
    world_create(world)
}

/// Whether `e` is in the world, be it alive or marked for removal. A handle
/// whose slot was given to a later entity is not.
pub fn is_present(world: &specs::World, e: specs::Entity) -> (yes: bool)
    requires
        wf(*world),
    ensures
        yes == present(*world, e),
{
    if generation_of(e) <= 0 {
        false
    } else {
        world_is_alive(world, e)
    }
}

/// Whether `e` is alive: in the world and not marked for removal.
pub fn is_alive(world: &specs::World, e: specs::Entity) -> (yes: bool)
    requires
        wf(*world),
    ensures
        yes == alive(*world, e),
{
    if is_present(world, e) {
        !marks_contains(world, e)
    } else {
        false
    }
}

/// Whether `e` is marked for removal and not yet collected.
pub fn is_marked(world: &specs::World, e: specs::Entity) -> (yes: bool)
    requires
        wf(*world),
    ensures
        yes == world_marked(*world).contains(key_of(e)),
{
    marks_contains(world, e)
}

/// Destroys `e`: a living entity is marked for removal, which takes it out
/// of the living at once; its components stay until [`maintain`]. On an
/// entity that is dead, marked already or unknown the call does nothing.
pub fn destroy(world: &mut specs::World, e: specs::Entity)
    requires
        wf(*old(world)),
    ensures
        wf(*final(world)),
        state_of(*final(world)) == state_of(*old(world)).after_destroy(key_of(e)),
{
    if is_alive(world, e) {
        marks_insert(world, e);
    }
}

/// The entities marked for removal, by ascending index.
pub fn marked_entities(world: &specs::World) -> (list: Vec<specs::Entity>)
    requires
        wf(*world),
    ensures
        lists(keys_of(list@), world_marked(*world)),
{
    marks_join(world)
}

/// Notes every marked entity for deletion, without deleting any.
pub fn cleanup(world: &mut specs::World)
    requires
        wf(*old(world)),
    ensures
        wf(*final(world)),
        state_of(*final(world)) == state_of(*old(world)).after_cleanup(),
{
    let list = marks_join(world);
    let ghost before = state_of(*world);
    let ghost keys = keys_of(list@);
    proof {
        assert(keys.subrange(0, 0).to_set() =~= Set::<EntityKey>::empty());
        assert(before.doomed.union(keys.subrange(0, 0).to_set()) =~= before.doomed);
    }
    let mut i: usize = 0;
    while i < list.len()
        invariant
            0 <= i <= list.len(),
            keys == keys_of(list@),
            lists(keys, before.marked),
            forall|j: int| 0 <= j < list.len() ==> entity_generation(#[trigger] list[j]) > 0,
            before.consistent(),
            world_ready(*world),
            state_of(*world) == (WorldState {
                doomed: before.doomed.union(keys.subrange(0, i as int).to_set()),
                ..before
            }),
        decreases list.len() - i,
    {
        let e = list[i];
        proof {
            assert(keys[i as int] == key_of(e));
            assert(before.marked.contains(keys[i as int]));
            assert(keys.subrange(0, i + 1) =~= keys.subrange(0, i as int).push(keys[i as int]));
            assert(keys.subrange(0, i + 1).to_set() =~= keys.subrange(0, i as int).to_set().insert(
                keys[i as int],
            )) by {
                lemma_to_set_push(keys.subrange(0, i as int), keys[i as int]);
            }
        }
        world_doom(world, e);
        proof {
            assert(before.doomed.union(keys.subrange(0, i as int).to_set()).insert(key_of(e))
                =~= before.doomed.union(keys.subrange(0, i + 1).to_set()));
        }
        i = i + 1;
    }
    proof {
        assert(keys.subrange(0, list.len() as int) =~= keys);
        assert(keys.to_set() =~= before.marked);
        assert(state_of(*world).doomed =~= before.pending());
    }
}

/// The synchronisation point between two dispatches: every entity that is
/// marked for removal, or was noted for deletion, leaves the world together
/// with its components.
pub fn maintain(world: &mut specs::World)
    requires
        wf(*old(world)),
    ensures
        wf(*final(world)),
        state_of(*final(world)) == state_of(*old(world)).after_maintain(),
{
    let ghost before = state_of(*world);
    cleanup(world);
    world_maintain(world);
    proof {
        let after = state_of(*world);
        assert(before.pending().union(before.marked) =~= before.pending());
        assert(after.entities =~= before.entities.difference(before.pending()));
        assert(after.marked =~= Set::<EntityKey>::empty());
        assert(after.bricks =~= before.bricks.remove_keys(before.pending()));
    }
}

/// Puts `brick` on `e`, in place of the brick it may hold. The brick is
/// stored where `e` is in the world, also where `e` is marked for removal
/// (it then goes with `e` at the next [`maintain`]); on an entity that is not
/// in the world nothing is stored. Returns whether it was stored.
pub fn insert_brick(world: &mut specs::World, e: specs::Entity, brick: Brick) -> (stored: bool)
    requires
        wf(*old(world)),
    ensures
        wf(*final(world)),
        stored == present(*old(world), e),
        state_of(*final(world)) == state_of(*old(world)).after_insert_brick(key_of(e), brick),
{
    if is_present(world, e) {
        bricks_insert(world, e, brick);
        proof {
            assert(state_of(*world).bricks.dom() =~= state_of(*old(world)).bricks.dom().insert(
                key_of(e),
            ));
        }
        true
    } else {
        false
    }
}

/// The brick on `e`, if `e` is in the world and holds one.
pub fn get_brick(world: &specs::World, e: specs::Entity) -> (found: Option<Brick>)
    requires
        wf(*world),
    ensures
        found == state_of(*world).brick(key_of(e)),
{
    bricks_get(world, e)
}

/// Takes the brick off `e` and returns it, if there was one.
pub fn remove_brick(world: &mut specs::World, e: specs::Entity) -> (taken: Option<Brick>)
    requires
        wf(*old(world)),
    ensures
        wf(*final(world)),
        taken == state_of(*old(world)).brick(key_of(e)),
        state_of(*final(world)) == state_of(*old(world)).after_remove_brick(key_of(e)),
{
    let taken = bricks_remove(world, e);
    proof {
        assert(state_of(*world).bricks.dom() =~= state_of(*old(world)).bricks.dom().remove(
            key_of(e),
        ));
    }
    taken
}

/// The entities that hold a brick, by ascending index.
pub fn brick_entities(world: &specs::World) -> (list: Vec<specs::Entity>)
    requires
        wf(*world),
    ensures
        lists(keys_of(list@), world_bricks(*world).dom()),
{
    bricks_join(world)
}

/// How many entities hold a brick.
pub fn count_bricks(world: &specs::World) -> (count: usize)
    requires
        wf(*world),
    ensures
        world_bricks(*world).dom().finite(),
        count == world_bricks(*world).dom().len(),
{
    let list = bricks_join(world);
    proof {
        lemma_listed_len(keys_of(list@), world_bricks(*world).dom());
    }
    list.len()
}

/// A ball hits the brick on `e`. A living brick that needs more than one hit
/// needs one less afterwards; one that needs no more than one is marked for
/// removal. A hit on an entity that is not alive, or holds no brick, changes
/// nothing.
pub fn hit_brick(world: &mut specs::World, e: specs::Entity) -> (outcome: BrickHit)
    requires
        wf(*old(world)),
    ensures
        wf(*final(world)),
        outcome == hit_outcome(state_of(*old(world)), key_of(e)),
        state_of(*final(world)) == state_of(*old(world)).after_hit(key_of(e)),
{
    if !is_alive(world, e) {
        return BrickHit::Missed;
    }
    match bricks_get(world, e) {
        None => BrickHit::Missed,
        Some(brick) => {
            if brick.hits_required > 1 {
                let hits_left: i32 = brick.hits_required - 1;
                bricks_insert(world, e, Brick { hits_required: hits_left, points: brick.points });
                proof {
                    assert(state_of(*world).bricks.dom() =~= state_of(*old(world)).bricks.dom());
                }
                BrickHit::Damaged { hits_left }
            } else {
                bricks_insert(world, e, Brick { hits_required: 0, points: brick.points });
                marks_insert(world, e);
                proof {
                    assert(state_of(*world).bricks.dom() =~= state_of(*old(world)).bricks.dom());
                }
                BrickHit::Destroyed { points: brick.points }
            }
        },
    }
}

/// The set of a sequence with one more element is the set with that element.
proof fn lemma_to_set_push(keys: Seq<EntityKey>, k: EntityKey)
    ensures
        keys.push(k).to_set() =~= keys.to_set().insert(k),
{
    assert forall|x: EntityKey| keys.push(k).to_set().contains(x) implies keys.to_set().insert(
        k,
    ).contains(x) by {
        let i = choose|i: int| 0 <= i < keys.push(k).len() && keys.push(k)[i] == x;
        if i < keys.len() {
            assert(keys[i] == x);
        }
    }
    assert forall|x: EntityKey| keys.to_set().insert(k).contains(x) implies keys.push(
        k,
    ).to_set().contains(x) by {
        if x == k {
            assert(keys.push(k)[keys.len() as int] == k);
        } else {
            let i = choose|i: int| 0 <= i < keys.len() && keys[i] == x;
            assert(keys.push(k)[i] == x);
        }
    }
}

/// A list of a set is as long as the set is large.
pub proof fn lemma_listed_len(keys: Seq<EntityKey>, set: Set<EntityKey>)
    requires
        lists(keys, set),
    ensures
        set.finite(),
        keys.len() == set.len(),
        keys.no_duplicates(),
        keys.to_set() == set,
{
    assert(keys.no_duplicates());
    assert(keys.to_set() =~= set);
    keys.unique_seq_to_set();
}

/// Entity lifecycle. Destroying a living entity takes it out of the living at
/// once but leaves it, and its components, in the world; the next `maintain`
/// removes both.
pub proof fn lemma_destroy_then_maintain(s: WorldState, k: EntityKey)
    requires
        s.consistent(),
        s.alive(k),
    ensures
        !s.after_destroy(k).alive(k),
        s.after_destroy(k).present(k),
        s.after_destroy(k).brick(k) == s.brick(k),
        !s.after_destroy(k).after_maintain().present(k),
        !s.after_destroy(k).after_maintain().alive(k),
        s.after_destroy(k).after_maintain().brick(k) is None,
{
}

/// `maintain` takes away what was pending and nothing else: every other
/// entity stays as it was, alive and with its brick.
pub proof fn lemma_maintain_keeps_the_living(s: WorldState, k: EntityKey)
    requires
        s.consistent(),
        !s.pending().contains(k),
    ensures
        s.after_maintain().consistent(),
        s.after_maintain().present(k) == s.present(k),
        s.after_maintain().alive(k) == s.alive(k),
        s.after_maintain().brick(k) == s.brick(k),
        s.after_maintain().pending() == Set::<EntityKey>::empty(),
{
    assert(s.after_maintain().pending() =~= Set::<EntityKey>::empty());
}

/// Creation adds one living entity without components and leaves every
/// other entity as it was.
pub proof fn lemma_create_is_fresh(s: WorldState, k: EntityKey)
    requires
        s.consistent(),
        !s.present(k),
        k.1 > 0,
    ensures
        s.after_create(k).consistent(),
        s.after_create(k).alive(k),
        s.after_create(k).brick(k) is None,
        forall|other: EntityKey| other != k ==> s.after_create(k).alive(other) == s.alive(other),
{
}

/// Join stability: a set of entities has one listing only, so two joins over
/// the same component table, with no change to the world between them, give
/// the same entities in the same order.
pub proof fn lemma_listing_is_unique(a: Seq<EntityKey>, b: Seq<EntityKey>, set: Set<EntityKey>)
    requires
        lists(a, set),
        lists(b, set),
    ensures
        a == b,
    decreases a.len(),
{
    lemma_listed_len(a, set);
    lemma_listed_len(b, set);
    if a.len() > 0 {
        let x = a.last();
        let y = b.last();
        assert(set.contains(x));
        assert(set.contains(y));
        let j = choose|j: int| 0 <= j < b.len() && b[j] == x;
        let i = choose|i: int| 0 <= i < a.len() && a[i] == y;
        assert(x.0 <= y.0);
        assert(y.0 <= x.0);
        assert(j == b.len() - 1);
        assert(x == y);
        let rest = set.remove(x);
        assert(lists(a.drop_last(), rest)) by {
            assert forall|k: EntityKey| rest.contains(k) implies a.drop_last().contains(k) by {
                let n = choose|n: int| 0 <= n < a.len() && a[n] == k;
                assert(a.drop_last()[n] == k);
            }
        }
        assert(lists(b.drop_last(), rest)) by {
            assert forall|k: EntityKey| rest.contains(k) implies b.drop_last().contains(k) by {
                let n = choose|n: int| 0 <= n < b.len() && b[n] == k;
                assert(b.drop_last()[n] == k);
            }
        }
        lemma_listing_is_unique(a.drop_last(), b.drop_last(), rest);
        assert(a =~= a.drop_last().push(x));
        assert(b =~= b.drop_last().push(y));
    } else {
        assert(a =~= b);
    }
}

/// Brick break. One hit on a living brick that needs one hit marks it; with
/// nothing else pending, the next `maintain` leaves exactly one brick less,
/// and the brick is in no later join.
pub proof fn lemma_brick_break(s: WorldState, k: EntityKey)
    requires
        s.consistent(),
        s.bricks.dom().finite(),
        s.pending() == Set::<EntityKey>::empty(),
        s.alive(k),
        s.bricks.dom().contains(k),
        s.bricks[k].hits_required == 1,
    ensures
        hit_outcome(s, k) == (BrickHit::Destroyed { points: s.bricks[k].points }),
        s.after_hit(k).marked.contains(k),
        s.after_hit(k).bricks.dom() == s.bricks.dom(),
        s.after_hit(k).after_maintain().bricks.dom() == s.bricks.dom().remove(k),
        s.after_hit(k).after_maintain().bricks.dom().len() == s.bricks.dom().len() - 1,
        forall|keys: Seq<EntityKey>|
            lists(keys, s.after_hit(k).after_maintain().bricks.dom()) ==> !keys.contains(k),
{
    let hit = s.after_hit(k);
    assert(hit.bricks.dom() =~= s.bricks.dom());
    assert(s.doomed =~= Set::<EntityKey>::empty());
    assert(s.marked =~= Set::<EntityKey>::empty()) by {
        assert forall|x: EntityKey| !s.marked.contains(x) by {
            if s.marked.contains(x) {
                assert(s.pending().contains(x));
            }
        }
    }
    assert(hit.pending() =~= set![k]);
    assert(hit.after_maintain().bricks.dom() =~= s.bricks.dom().remove(k));
}

/// A brick that needs more than one hit survives a hit, with one hit less to
/// go, and stays alive.
pub proof fn lemma_brick_damage(s: WorldState, k: EntityKey)
    requires
        s.consistent(),
        s.alive(k),
        s.bricks.dom().contains(k),
        s.bricks[k].hits_required > 1,
    ensures
        hit_outcome(s, k) == (BrickHit::Damaged {
            hits_left: (s.bricks[k].hits_required - 1) as i32,
        }),
        s.after_hit(k).alive(k),
        s.after_hit(k).brick(k) == Some(
            Brick {
                hits_required: (s.bricks[k].hits_required - 1) as i32,
                points: s.bricks[k].points,
            },
        ),
        s.after_hit(k).after_maintain().bricks.dom().contains(k) == !s.pending().contains(k),
{
}

/// Between two calls of `maintain` no entity leaves the world and no brick
/// leaves its entity: destroying, hitting and noting for deletion change
/// marks and counters only.
pub proof fn lemma_only_maintain_removes(s: WorldState, k: EntityKey)
    requires
        s.consistent(),
    ensures
        s.after_destroy(k).entities == s.entities,
        s.after_destroy(k).bricks == s.bricks,
        s.after_hit(k).entities == s.entities,
        s.after_hit(k).bricks.dom() == s.bricks.dom(),
        s.after_cleanup().entities == s.entities,
        s.after_cleanup().bricks == s.bricks,
        s.after_destroy(k).consistent(),
        s.after_hit(k).consistent(),
        s.after_cleanup().consistent(),
{
    assert(s.after_hit(k).bricks.dom() =~= s.bricks.dom());
}

/// No stale handle comes alive: a key that was created and is gone from the
/// world stays out of it, whatever is created, destroyed, hit or collected
/// afterwards.
pub proof fn lemma_gone_is_gone(s: WorldState, gone: EntityKey, k: EntityKey, brick: Brick)
    requires
        s.consistent(),
        s.issued.contains(gone),
        !s.present(gone),
    ensures
        !s.issued.contains(k) ==> !s.after_create(k).present(gone),
        !s.after_destroy(k).present(gone),
        !s.after_hit(k).present(gone),
        !s.after_insert_brick(k, brick).present(gone),
        !s.after_remove_brick(k).present(gone),
        !s.after_cleanup().present(gone),
        !s.after_maintain().present(gone),
        s.after_maintain().issued == s.issued,
        s.after_destroy(k).issued == s.issued,
{
}

} // verus!
