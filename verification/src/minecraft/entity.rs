//! Tracked non-local entities: spawn, movement, rotation, velocity, removal.
//!
//! Positions and velocities are double-precision numbers as their bits. The
//! wire gives moves in fixed point; the float layer adds them up and hands over
//! where an entity ends.
use crate::minecraft::geometry::{angle_to_degrees, degrees, Vec3};
use crate::sharing::Replica;
use crate::sorted_map::{lemma_entry, MapKey, SortedMap};
use vstd::prelude::*;

verus! {

/// A non-local entity tracked from clientbound packets.
///
/// Positions are absolute blocks; rotations are degrees; velocity is
/// blocks per tick.
#[derive(Debug, Clone, Copy)]
pub struct Entity {
    /// Server-assigned entity id (the table key).
    pub id: i32,
    /// Entity UUID from the spawn packet.
    pub uuid: u128,
    /// Entity type id (index into the entity registry).
    pub kind: i32,
    pub position: Vec3,
    /// Body yaw in degrees, as single-precision bits.
    pub yaw: u32,
    /// Pitch in degrees, as single-precision bits.
    pub pitch: u32,
    /// Head yaw in degrees, as single-precision bits.
    pub head_yaw: u32,
    /// Velocity in blocks per tick.
    pub velocity: Vec3,
    pub on_ground: bool,
}

/// An entity appears.
pub struct PacketSpawnEntity {
    pub entity_id: i32,
    pub object_uuid: u128,
    pub kind: i32,
    pub position: Vec3,
    pub pitch: i8,
    pub yaw: i8,
    /// The head's yaw.
    pub head_pitch: i8,
    pub object_data: i32,
    /// Blocks per tick: an eight-thousandth of what the wire says.
    pub velocity: Vec3,
}

/// Entities disappear.
pub struct PacketEntityDestroy {
    pub entity_ids: Vec<i32>,
}

/// How many parts of a step make a block.
pub const STEP_PARTS: u16 = 4096;

/// A small step, in parts of a block.
#[derive(Debug, Clone, Copy, PartialEq, Eq, Structural)]
pub struct Step {
    pub d_x: i16,
    pub d_y: i16,
    pub d_z: i16,
}

/// An entity moves by a small step.
pub struct PacketRelEntityMove {
    pub entity_id: i32,
    pub step: Step,
    /// Where the step leads: the position before plus the step.
    pub to: Vec3,
    pub on_ground: bool,
}

/// An entity moves by a small step and turns.
pub struct PacketEntityMoveLook {
    pub entity_id: i32,
    pub step: Step,
    /// Where the step leads: the position before plus the step.
    pub to: Vec3,
    pub yaw: i8,
    pub pitch: i8,
    pub on_ground: bool,
}

/// An entity turns.
pub struct PacketEntityLook {
    pub entity_id: i32,
    pub yaw: i8,
    pub pitch: i8,
    pub on_ground: bool,
}

/// An entity is put somewhere.
pub struct PacketEntityTeleport {
    pub entity_id: i32,
    pub position: Vec3,
    pub yaw: i8,
    pub pitch: i8,
    pub on_ground: bool,
}

/// An entity's position, velocity and rotation, all absolute.
pub struct PacketSyncEntityPosition {
    pub entity_id: i32,
    pub position: Vec3,
    pub velocity: Vec3,
    pub yaw: u32,
    pub pitch: u32,
    pub on_ground: bool,
}

/// An entity's velocity.
pub struct PacketEntityVelocity {
    pub entity_id: i32,
    /// Blocks per tick: an eight-thousandth of what the wire says.
    pub velocity: Vec3,
}

/// An entity turns its head.
pub struct PacketEntityHeadRotation {
    pub entity_id: i32,
    pub head_yaw: i8,
}

/// The entity that a packet makes appear.
pub open spec fn spawned(p: PacketSpawnEntity) -> Entity {
    Entity {
        id: p.entity_id,
        uuid: p.object_uuid,
        kind: p.kind,
        position: p.position,
        pitch: degrees(p.pitch) as u32,
        yaw: degrees(p.yaw) as u32,
        head_yaw: degrees(p.head_pitch) as u32,
        velocity: p.velocity,
        on_ground: false,
    }
}

/// The table with the entity replaced where it is tracked; a change to an
/// entity that is not tracked is passed over.
pub open spec fn changed(m: Map<int, Entity>, id: i32, to: Entity) -> Map<int, Entity> {
    if m.contains_key(id as int) {
        m.insert(id as int, to)
    } else {
        m
    }
}

/// The table without some entities.
pub open spec fn without(m: Map<int, Entity>, ids: Seq<i32>) -> Map<int, Entity>
    decreases ids.len(),
{
    if ids.len() == 0 {
        m
    } else {
        without(m, ids.drop_last()).remove(ids.last() as int)
    }
}

/// Table of tracked entities keyed by entity id.
pub struct EntityStore {
    entities: SortedMap<i32, Entity>,
}

impl View for EntityStore {
    type V = Map<int, Entity>;

    closed spec fn view(&self) -> Map<int, Entity> {
        self.entities@
    }
}

/// Whether entities are those of these ids, by ascending id.
pub open spec fn entities_by_id(m: Map<int, Entity>, ids: Seq<int>, all: Seq<&Entity>) -> bool {
    &&& ids.len() == all.len()
    &&& forall|i: int, j: int| 0 <= i < j < ids.len() ==> #[trigger] ids[i] < #[trigger] ids[j]
    &&& forall|i: int|
        0 <= i < ids.len() ==> m.contains_key(#[trigger] ids[i]) && m[ids[i]] == *all[i]
}

impl EntityStore {
    /// An empty store.
    pub fn new() -> (s: Self)
        ensures
            s@ == Map::<int, Entity>::empty(),
    {
        EntityStore { entities: SortedMap::new() }
    }

    /// Number of tracked entities.
    pub fn len(&self) -> (n: usize)
        ensures
            n == self@.len(),
    {
        self.entities.len()
    }

    /// Whether no entities are tracked.
    pub fn is_empty(&self) -> (b: bool)
        ensures
            b == (self@ == Map::<int, Entity>::empty()),
    {
        self.entities.is_empty()
    }

    /// Looks up a tracked entity by id.
    pub fn get(&self, id: i32) -> (e: Option<&Entity>)
        ensures
            e is Some <==> self@.contains_key(id as int),
            e matches Some(e) ==> *e == self@[id as int],
    {
        self.entities.get(&id)
    }

    /// All tracked entities, by ascending id.
    pub fn iter(&self) -> (all: Vec<&Entity>)
        ensures
            all@.len() == self@.len(),
            exists|ids: Seq<int>| #[trigger] entities_by_id(self@, ids, all@),
    {
        let n: usize = self.entities.len();
        let mut all: Vec<&Entity> = Vec::new();
        let mut i: usize = 0;
        while i < n
            invariant
                n == self.entities.sorted().len(),
                i <= n,
                all@.len() == i,
                forall|k: int|
                    0 <= k < i ==> *(#[trigger] all@[k]) == self.entities.sorted()[k].1,
            decreases n - i,
        {
            all.push(self.entities.entry(i).1);
            i += 1;
        }
        proof {
            let sorted = self.entities.sorted();
            let ids = Seq::new(sorted.len(), |i: int| sorted[i].0 as int);
            assert forall|i: int| 0 <= i < ids.len() implies self@.contains_key(
                #[trigger] ids[i],
            ) && self@[ids[i]] == *all@[i] by {
                lemma_entry(sorted, i);
            }
            assert forall|i: int, j: int| 0 <= i < j < ids.len() implies #[trigger] ids[i]
                < #[trigger] ids[j] by {
                assert(<i32 as MapKey>::less(sorted[i].0.key(), sorted[j].0.key()));
            }
            assert(entities_by_id(self@, ids, all@));
        }
        all
    }

    /// Inserts (or replaces) an entity from a `spawn_entity` packet.
    pub fn spawn(&mut self, p: &PacketSpawnEntity)
        ensures
            final(self)@ == old(self)@.insert(p.entity_id as int, spawned(*p)),
    {
        self.entities.insert(
            p.entity_id,
            Entity {
                id: p.entity_id,
                uuid: p.object_uuid,
                kind: p.kind,
                position: p.position,
                pitch: angle_to_degrees(p.pitch),
                yaw: angle_to_degrees(p.yaw),
                head_yaw: angle_to_degrees(p.head_pitch),
                velocity: p.velocity,
                on_ground: false,
            },
        );
    }

    /// Removes the given entity ids (`entity_destroy`).
    pub fn destroy(&mut self, ids: &Vec<i32>)
        ensures
            final(self)@ == without(old(self)@, ids@),
    {
        let mut i: usize = 0;
        assert(ids@.take(0) =~= Seq::empty());
        while i < ids.len()
            invariant
                i <= ids@.len(),
                self@ == without(old(self)@, ids@.take(i as int)),
            decreases ids@.len() - i,
        {
            self.entities.remove(&ids[i]);
            i += 1;
            assert(ids@.take(i as int).drop_last() =~= ids@.take(i - 1));
        }
        assert(ids@.take(i as int) =~= ids@);
    }

    /// The entity with this id, if it is tracked.
    fn known_entity(&self, id: i32) -> (e: Option<Entity>)
        ensures
            e is Some <==> self@.contains_key(id as int),
            e matches Some(e) ==> e == self@[id as int],
    {
        match self.entities.get(&id) {
            Some(e) => Some(*e),
            None => None,
        }
    }

    /// Applies a compact relative move (`rel_entity_move`).
    pub fn rel_move(&mut self, p: &PacketRelEntityMove)
        ensures
            final(self)@ == changed(
                old(self)@,
                p.entity_id,
                Entity {
                    position: p.to,
                    on_ground: p.on_ground,
                    ..old(self)@[p.entity_id as int]
                },
            ),
    {
        if let Some(e) = self.known_entity(p.entity_id) {
            self.entities.insert(
                p.entity_id,
                Entity { position: p.to, on_ground: p.on_ground, ..e },
            );
        }
    }

    /// Applies a compact relative move plus rotation (`entity_move_look`).
    pub fn move_look(&mut self, p: &PacketEntityMoveLook)
        ensures
            final(self)@ == changed(
                old(self)@,
                p.entity_id,
                Entity {
                    position: p.to,
                    yaw: degrees(p.yaw) as u32,
                    pitch: degrees(p.pitch) as u32,
                    on_ground: p.on_ground,
                    ..old(self)@[p.entity_id as int]
                },
            ),
    {
        if let Some(e) = self.known_entity(p.entity_id) {
            self.entities.insert(
                p.entity_id,
                Entity {
                    position: p.to,
                    yaw: angle_to_degrees(p.yaw),
                    pitch: angle_to_degrees(p.pitch),
                    on_ground: p.on_ground,
                    ..e
                },
            );
        }
    }

    /// Applies a rotation-only update (`entity_look`).
    pub fn look(&mut self, p: &PacketEntityLook)
        ensures
            final(self)@ == changed(
                old(self)@,
                p.entity_id,
                Entity {
                    yaw: degrees(p.yaw) as u32,
                    pitch: degrees(p.pitch) as u32,
                    on_ground: p.on_ground,
                    ..old(self)@[p.entity_id as int]
                },
            ),
    {
        if let Some(e) = self.known_entity(p.entity_id) {
            self.entities.insert(
                p.entity_id,
                Entity {
                    yaw: angle_to_degrees(p.yaw),
                    pitch: angle_to_degrees(p.pitch),
                    on_ground: p.on_ground,
                    ..e
                },
            );
        }
    }

    /// Applies an absolute teleport (`entity_teleport`).
    pub fn teleport(&mut self, p: &PacketEntityTeleport)
        ensures
            final(self)@ == changed(
                old(self)@,
                p.entity_id,
                Entity {
                    position: p.position,
                    yaw: degrees(p.yaw) as u32,
                    pitch: degrees(p.pitch) as u32,
                    on_ground: p.on_ground,
                    ..old(self)@[p.entity_id as int]
                },
            ),
    {
        if let Some(e) = self.known_entity(p.entity_id) {
            self.entities.insert(
                p.entity_id,
                Entity {
                    position: p.position,
                    yaw: angle_to_degrees(p.yaw),
                    pitch: angle_to_degrees(p.pitch),
                    on_ground: p.on_ground,
                    ..e
                },
            );
        }
    }

    /// Applies an absolute position sync with velocity (`sync_entity_position`).
    pub fn sync_position(&mut self, p: &PacketSyncEntityPosition)
        ensures
            final(self)@ == changed(
                old(self)@,
                p.entity_id,
                Entity {
                    position: p.position,
                    velocity: p.velocity,
                    yaw: p.yaw,
                    pitch: p.pitch,
                    on_ground: p.on_ground,
                    ..old(self)@[p.entity_id as int]
                },
            ),
    {
        if let Some(e) = self.known_entity(p.entity_id) {
            self.entities.insert(
                p.entity_id,
                Entity {
                    position: p.position,
                    velocity: p.velocity,
                    yaw: p.yaw,
                    pitch: p.pitch,
                    on_ground: p.on_ground,
                    ..e
                },
            );
        }
    }

    /// Applies a velocity update (`entity_velocity`).
    pub fn velocity(&mut self, p: &PacketEntityVelocity)
        ensures
            final(self)@ == changed(
                old(self)@,
                p.entity_id,
                Entity { velocity: p.velocity, ..old(self)@[p.entity_id as int] },
            ),
    {
        if let Some(e) = self.known_entity(p.entity_id) {
            self.entities.insert(p.entity_id, Entity { velocity: p.velocity, ..e });
        }
    }

    /// Applies a head-yaw update (`entity_head_rotation`).
    pub fn head_rotation(&mut self, p: &PacketEntityHeadRotation)
        ensures
            final(self)@ == changed(
                old(self)@,
                p.entity_id,
                Entity {
                    head_yaw: degrees(p.head_yaw) as u32,
                    ..old(self)@[p.entity_id as int]
                },
            ),
    {
        if let Some(e) = self.known_entity(p.entity_id) {
            self.entities.insert(
                p.entity_id,
                Entity { head_yaw: angle_to_degrees(p.head_yaw), ..e },
            );
        }
    }
}

impl Replica for EntityStore {
    open spec fn agrees(&self, other: &EntityStore) -> bool {
        self@ == other@
    }

    fn replica(&self) -> (r: EntityStore) {
        let entities = self.entities.replica();
        assert(entities@ =~= self.entities@);
        EntityStore { entities }
    }
}

/// Entities that were destroyed are not tracked any more; the others are as
/// they were.
pub proof fn law_destroy_removes_exactly_the_named(m: Map<int, Entity>, ids: Seq<i32>, id: i32)
    ensures
        ids.contains(id) ==> !without(m, ids).contains_key(id as int),
        !ids.contains(id) ==> without(m, ids).contains_key(id as int) == m.contains_key(id as int)
            && (m.contains_key(id as int) ==> without(m, ids)[id as int] == m[id as int]),
    decreases ids.len(),
{
    if ids.len() > 0 {
        let rest = ids.drop_last();
        law_destroy_removes_exactly_the_named(m, rest, id);
        if ids.contains(id) {
            let i = choose|i: int| 0 <= i < ids.len() && ids[i] == id;
            if i < ids.len() - 1 {
                assert(rest[i] == id);
            }
        } else {
            assert(ids[ids.len() - 1] != id);
            if rest.contains(id) {
                let i = choose|i: int| 0 <= i < rest.len() && rest[i] == id;
                assert(ids[i] == id);
            }
        }
    }
}

} // verus!
