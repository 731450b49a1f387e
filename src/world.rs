use vstd::prelude::*;
use crate::physics::{Transform, Velocity, Attractor};
use crate::collision::BoundingBox2D;
use crate::particles::{Color, ParticleLifetime, ParticleColorLerp};
use crate::mode::GameMode;

verus! {

/// Marks a player-controlled ship; `id` selects its controls and score slot.
#[derive(Clone, Copy, Debug, PartialEq, Eq, Structural)]
pub struct Player {
    pub id: usize,
}

/// Which slice of the sprite atlas an entity shows, and in which color.
#[derive(Clone, Copy, Debug, PartialEq, Eq, Structural)]
pub struct Sprite {
    pub index: usize,
    pub color: Color,
}

/// The components of one entity; each kind is present or absent.
#[derive(Clone, Copy, Debug, PartialEq, Eq, Structural)]
pub struct Entity {
    pub transform: Option<Transform>,
    pub velocity: Option<Velocity>,
    pub bounds: Option<BoundingBox2D>,
    pub attractor: Option<Attractor>,
    pub player: Option<Player>,
    pub emit_trail: bool,
    pub salvage: bool,
    pub lifetime: Option<ParticleLifetime>,
    pub color_lerp: Option<ParticleColorLerp>,
    pub sprite: Option<Sprite>,
    /// The mode whose exit removes this entity.
    pub scene: Option<GameMode>,
}

impl Entity {
    pub open spec fn wf(&self) -> bool {
        &&& (self.transform matches Some(t) ==> t.wf())
        &&& (self.velocity matches Some(v) ==> v.wf())
        &&& (self.bounds matches Some(b) ==> b.wf())
        &&& (self.player matches Some(p) ==> p.id < 2 && self.scene == Some(GameMode::Playing))
        &&& (self.lifetime matches Some(l) ==> l.wf() && self.color_lerp.is_some()
            && self.velocity.is_some())
    }

    /// An entity with no components.
    pub fn empty() -> (e: Entity)
        ensures
            e == (Entity {
                transform: None,
                velocity: None,
                bounds: None,
                attractor: None,
                player: None,
                emit_trail: false,
                salvage: false,
                lifetime: None,
                color_lerp: None,
                sprite: None,
                scene: None,
            }),
            e.wf(),
    {
        Entity {
            transform: None,
            velocity: None,
            bounds: None,
            attractor: None,
            player: None,
            emit_trail: false,
            salvage: false,
            lifetime: None,
            color_lerp: None,
            sprite: None,
            scene: None,
        }
    }
}

/// The entity store: one slot per entity ever created, `None` once destroyed.
/// An entity's id is its slot index; ids are never reused.
pub struct World {
    pub slots: Vec<Option<Entity>>,
}

/// Every live entity is well formed, and no two live entities are players with one id.
pub open spec fn slots_wf(s: Seq<Option<Entity>>) -> bool {
    &&& forall|i: int| 0 <= i < s.len() && (#[trigger] s[i]).is_some() ==> s[i]->Some_0.wf()
    &&& forall|i: int, j: int|
        0 <= i < s.len() && 0 <= j < s.len() && (#[trigger] player_id(s[i])).is_some()
            && player_id(s[i]) == #[trigger] player_id(s[j]) ==> i == j
}

/// The player id of a slot, if it holds a live player.
pub open spec fn player_id(o: Option<Entity>) -> Option<usize> {
    match o {
        Some(e) => match e.player {
            Some(p) => Some(p.id),
            None => None,
        },
        None => None,
    }
}

impl View for World {
    type V = Seq<Option<Entity>>;

    open spec fn view(&self) -> Seq<Option<Entity>> {
        self.slots@
    }
}

impl World {
    pub open spec fn wf(&self) -> bool {
        slots_wf(self@)
    }

    pub fn new() -> (w: World)
        ensures
            w@ == Seq::<Option<Entity>>::empty(),
            w.wf(),
    {
        World { slots: Vec::new() }
    }

    /// Number of ids handed out so far.
    pub fn len(&self) -> (n: usize)
        ensures
            n == self@.len(),
    {
        self.slots.len()
    }

    /// The entity with id `id`, if it is alive.
    pub fn get(&self, id: usize) -> (r: Option<Entity>)
        ensures
            r == (if id < self@.len() { self@[id as int] } else { None }),
    {
        if id < self.slots.len() {
            self.slots[id]
        } else {
            None
        }
    }

    /// Creates an entity and returns its id.
    pub fn spawn(&mut self, e: Entity) -> (id: usize)
        requires
            old(self).wf(),
            e.wf(),
            e.player.is_none(),
        ensures
            final(self)@ == old(self)@.push(Some(e)),
            id == old(self)@.len(),
            final(self).wf(),
    {
        let id = self.slots.len();
        self.slots.push(Some(e));
        id
    }

    /// Creates a player entity, unless a live player already has its id.
    pub fn spawn_player(&mut self, e: Entity) -> (id: Option<usize>)
        requires
            old(self).wf(),
            e.wf(),
            e.player.is_some(),
        ensures
            match id {
                Some(i) => final(self)@ == old(self)@.push(Some(e)) && i == old(self)@.len()
                    && !has_player(old(self)@, e.player->Some_0.id),
                None => final(self)@ == old(self)@ && has_player(old(self)@, e.player->Some_0.id),
            },
            final(self).wf(),
    {
        let pid = e.player.unwrap().id;
        let mut i: usize = 0;
        while i < self.slots.len()
            invariant
                0 <= i <= self@.len(),
                pid == e.player->Some_0.id,
                self@ == old(self)@,
                self.wf(),
                forall|j: int| 0 <= j < i ==> #[trigger] player_id(self@[j]) != Some(pid),
            decreases self@.len() - i,
        {
            if let Some(x) = self.slots[i] {
                if let Some(p) = x.player {
                    if p.id == pid {
                        assert(player_id(self@[i as int]) == Some(pid));
                        return None;
                    }
                }
            }
            i = i + 1;
        }
        let id = self.slots.len();
        let ghost before = self@;
        self.slots.push(Some(e));
        assert forall|j: int| 0 <= j < before.len() implies #[trigger] self@[j] == before[j] by {}
        assert(player_id(self@[id as int]) == Some(pid));
        Some(id)
    }

    /// Destroys an entity: all its components go and its id stays unused.
    pub fn despawn(&mut self, id: usize)
        requires
            old(self).wf(),
        ensures
            final(self)@ == (if id < old(self)@.len() { old(self)@.update(id as int, None) } else { old(self)@ }),
            final(self).wf(),
    {
        if id < self.slots.len() {
            self.slots[id] = None;
        }
    }
}

/// Replacing a live entity by a well-formed one with the same player id keeps the
/// store well formed.
pub proof fn lemma_replace_keeps_wf(s: Seq<Option<Entity>>, i: int, e: Entity)
    requires
        slots_wf(s),
        0 <= i < s.len(),
        e.wf(),
        player_id(Some(e)) == player_id(s[i]),
    ensures
        slots_wf(s.update(i, Some(e))),
{
    let t = s.update(i, Some(e));
    assert forall|a: int, b: int|
        0 <= a < t.len() && 0 <= b < t.len() && (#[trigger] player_id(t[a])).is_some()
            && player_id(t[a]) == #[trigger] player_id(t[b]) implies a == b by {
        assert(player_id(t[a]) == player_id(s[a]));
        assert(player_id(t[b]) == player_id(s[b]));
    }
}

/// Clearing a slot keeps the store well formed.
pub proof fn lemma_clear_keeps_wf(s: Seq<Option<Entity>>, i: int)
    requires
        slots_wf(s),
        0 <= i < s.len(),
    ensures
        slots_wf(s.update(i, None)),
{
    let t = s.update(i, None);
    assert forall|a: int, b: int|
        0 <= a < t.len() && 0 <= b < t.len() && (#[trigger] player_id(t[a])).is_some()
            && player_id(t[a]) == #[trigger] player_id(t[b]) implies a == b by {
        assert(player_id(t[a]) == player_id(s[a]));
        assert(player_id(t[b]) == player_id(s[b]));
    }
}

/// The slot holds a live entity that belongs to `scene`.
pub open spec fn in_scene(o: Option<Entity>, scene: GameMode) -> bool {
    match o {
        Some(e) => e.scene == Some(scene),
        None => false,
    }
}

/// Destroys every entity that belongs to `scene`.
pub fn remove_matching_elements(world: &mut World, scene: GameMode)
    requires
        old(world).wf(),
    ensures
        final(world).wf(),
        final(world)@.len() == old(world)@.len(),
        forall|i: int|
            0 <= i < old(world)@.len() ==> #[trigger] final(world)@[i] == (if in_scene(old(world)@[i], scene) {
                None
            } else {
                old(world)@[i]
            }),
{
    let n = world.slots.len();
    let mut i: usize = 0;
    while i < n
        invariant
            n == old(world)@.len(),
            0 <= i <= n,
            world.wf(),
            world@.len() == n,
            forall|j: int|
                0 <= j < i ==> #[trigger] world@[j] == (if in_scene(old(world)@[j], scene) {
                    None
                } else {
                    old(world)@[j]
                }),
            forall|j: int| i <= j < n ==> #[trigger] world@[j] == old(world)@[j],
        decreases n - i,
    {
        if let Some(e) = world.slots[i] {
            if e.scene == Some(scene) {
                proof {
                    lemma_clear_keeps_wf(world@, i as int);
                }
                world.slots[i] = None;
            }
        }
        i = i + 1;
    }
}

/// Some live entity is a player with this id.
pub open spec fn has_player(s: Seq<Option<Entity>>, id: usize) -> bool {
    exists|j: int| 0 <= j < s.len() && #[trigger] player_id(s[j]) == Some(id)
}

} // verus!
