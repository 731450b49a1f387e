use vstd::prelude::*;
use crate::physics::{Transform, Velocity, POS_LIMIT, advance, advanced, attraction_step, attracted, lemma_velocity_step_linear};
use crate::particles::{ParticleLifetime, color_at, lerp_color};
use crate::world::{Entity, World, Sprite, player_id, lemma_replace_keeps_wf};

verus! {

/// Half the play field's width, in sub-units (512 pixels).
pub const HALF_WIDTH: i64 = 16896000;

/// Half the play field's height, in sub-units (384 pixels).
pub const HALF_HEIGHT: i64 = 12672000;

/// A slot after one velocity step over `elapsed` milliseconds.
pub open spec fn moved(o: Option<Entity>, elapsed: int) -> Option<Entity> {
    match o {
        Some(e) => match (e.transform, e.velocity) {
            (Some(t), Some(v)) => Some(Entity { transform: Some(advanced(t, v, elapsed)), ..e }),
            _ => o,
        },
        None => None,
    }
}

/// A slot after its particle ages by `elapsed` milliseconds: gone once past its lifetime.
pub open spec fn aged(o: Option<Entity>, elapsed: int) -> Option<Entity> {
    match o {
        Some(e) => match e.lifetime {
            Some(l) => if l.elapsed + elapsed > l.max {
                None
            } else {
                Some(
                    Entity {
                        lifetime: Some(ParticleLifetime { elapsed: (l.elapsed + elapsed) as u32, ..l }),
                        ..e
                    },
                )
            },
            None => o,
        },
        None => None,
    }
}

/// The slot holds a particle that ages past its lifetime within `elapsed` milliseconds.
pub open spec fn expires(o: Option<Entity>, elapsed: int) -> bool {
    match o {
        Some(e) => match e.lifetime {
            Some(l) => l.elapsed + elapsed > l.max,
            None => false,
        },
        None => false,
    }
}

/// A slot after its particle's sprite takes the color for the particle's age.
pub open spec fn recolored(o: Option<Entity>) -> Option<Entity> {
    match o {
        Some(e) => match (e.lifetime, e.color_lerp, e.sprite) {
            (Some(l), Some(c), Some(sp)) => Some(
                Entity {
                    sprite: Some(
                        Sprite {
                            color: lerp_color(c.start, c.end, l.elapsed as int, l.max as int),
                            ..sp
                        },
                    ),
                    ..e
                },
            ),
            _ => o,
        },
        None => None,
    }
}

/// `v` held within `[lo, hi]`.
pub open spec fn clamp(v: int, lo: int, hi: int) -> int {
    if v < lo {
        lo
    } else if v > hi {
        hi
    } else {
        v
    }
}

/// `t` held within the play field, each axis on its own.
pub open spec fn clamped(t: Transform) -> Transform {
    Transform {
        x: clamp(t.x as int, -HALF_WIDTH as int, HALF_WIDTH as int) as i64,
        y: clamp(t.y as int, -HALF_HEIGHT as int, HALF_HEIGHT as int) as i64,
        ..t
    }
}

/// Whether the entity in slot `i` counts as moved this tick: it has a velocity (the
/// velocity pass rewrote its transform) or it was created at or after `first_new`.
pub open spec fn touched(e: Entity, i: int, first_new: int) -> bool {
    e.velocity.is_some() || i >= first_new
}

/// A slot after the boundary clamp.
pub open spec fn kept_in_field(o: Option<Entity>, i: int, first_new: int) -> Option<Entity> {
    match o {
        Some(e) => match e.transform {
            Some(t) => if touched(e, i, first_new) {
                Some(Entity { transform: Some(clamped(t)), ..e })
            } else {
                o
            },
            None => o,
        },
        None => None,
    }
}

/// Moves every entity that has a transform and a velocity by `velocity * elapsed`.
pub fn apply_velocity(world: &mut World, elapsed: u32)
    requires
        old(world).wf(),
    ensures
        final(world).wf(),
        final(world)@.len() == old(world)@.len(),
        forall|i: int| 0 <= i < old(world)@.len() ==> #[trigger] final(world)@[i] == moved(old(world)@[i], elapsed as int),
{
    let n = world.slots.len();
    let mut i: usize = 0;
    while i < n
        invariant
            n == old(world)@.len(),
            0 <= i <= n,
            world.wf(),
            world@.len() == n,
            forall|j: int| 0 <= j < i ==> #[trigger] world@[j] == moved(old(world)@[j], elapsed as int),
            forall|j: int| i <= j < n ==> #[trigger] world@[j] == old(world)@[j],
            forall|j: int| 0 <= j < n ==> #[trigger] player_id(world@[j]) == player_id(old(world)@[j]),
        decreases n - i,
    {
        if let Some(e) = world.slots[i] {
            if let (Some(t), Some(v)) = (e.transform, e.velocity) {
                let nt = advance(&t, &v, elapsed);
                proof {
                    lemma_replace_keeps_wf(world@, i as int, Entity { transform: Some(nt), ..e });
                }
                world.slots[i] = Some(Entity { transform: Some(nt), ..e });
            }
        }
        i = i + 1;
    }
}

/// One velocity step over `elapsed` milliseconds keeps the slot's position within range
/// without holding it back.
pub open spec fn stays_in_range(o: Option<Entity>, elapsed: int) -> bool {
    match o {
        Some(e) => match (e.transform, e.velocity) {
            (Some(t), Some(v)) => -POS_LIMIT <= t.x + v.x * elapsed <= POS_LIMIT && -POS_LIMIT <= t.y + v.y
                * elapsed <= POS_LIMIT,
            _ => true,
        },
        None => true,
    }
}

/// Two velocity passes over `h` milliseconds each leave every slot where one pass over
/// `2 * h` milliseconds does, provided that single pass moves nothing past the position range.
pub proof fn lemma_apply_velocity_linear(s: Seq<Option<Entity>>, h: int)
    requires
        h >= 0,
        forall|i: int| 0 <= i < s.len() && (#[trigger] s[i]).is_some() ==> s[i]->Some_0.wf(),
        forall|i: int| 0 <= i < s.len() ==> stays_in_range(#[trigger] s[i], 2 * h),
    ensures
        forall|i: int| 0 <= i < s.len() ==> #[trigger] moved(moved(s[i], h), h) == moved(s[i], 2 * h),
{
    assert forall|i: int| 0 <= i < s.len() implies #[trigger] moved(moved(s[i], h), h) == moved(s[i], 2 * h) by {
        if let Some(e) = s[i] {
            if let (Some(t), Some(v)) = (e.transform, e.velocity) {
                lemma_velocity_step_linear(t, v, h);
            }
        }
    }
}

/// Ages every particle by `elapsed` milliseconds and destroys those past their lifetime.
pub fn particle_lifetimes(world: &mut World, elapsed: u32)
    requires
        old(world).wf(),
    ensures
        final(world).wf(),
        final(world)@.len() == old(world)@.len(),
        forall|i: int| 0 <= i < old(world)@.len() ==> #[trigger] final(world)@[i] == aged(old(world)@[i], elapsed as int),
        forall|i: int|
            0 <= i < old(world)@.len() && #[trigger] expires(old(world)@[i], elapsed as int)
                ==> final(world)@[i].is_none(),
{
    let n = world.slots.len();
    let mut i: usize = 0;
    while i < n
        invariant
            n == old(world)@.len(),
            0 <= i <= n,
            world.wf(),
            world@.len() == n,
            forall|j: int| 0 <= j < i ==> #[trigger] world@[j] == aged(old(world)@[j], elapsed as int),
            forall|j: int| i <= j < n ==> #[trigger] world@[j] == old(world)@[j],
            forall|j: int| 0 <= j < n && (#[trigger] world@[j]).is_some() ==> player_id(world@[j]) == player_id(old(world)@[j]),
        decreases n - i,
    {
        if let Some(e) = world.slots[i] {
            if let Some(l) = e.lifetime {
                let total = l.elapsed as u64 + elapsed as u64;
                if total > l.max as u64 {
                    world.slots[i] = None;
                } else {
                    let nl = ParticleLifetime { elapsed: total as u32, max: l.max };
                    world.slots[i] = Some(Entity { lifetime: Some(nl), ..e });
                }
            }
        }
        i = i + 1;
    }
}

/// Sets each particle's sprite color to its start-to-end blend at its current age.
pub fn particle_color_lerp(world: &mut World)
    requires
        old(world).wf(),
    ensures
        final(world).wf(),
        final(world)@.len() == old(world)@.len(),
        forall|i: int| 0 <= i < old(world)@.len() ==> #[trigger] final(world)@[i] == recolored(old(world)@[i]),
{
    let n = world.slots.len();
    let mut i: usize = 0;
    while i < n
        invariant
            n == old(world)@.len(),
            0 <= i <= n,
            world.wf(),
            world@.len() == n,
            forall|j: int| 0 <= j < i ==> #[trigger] world@[j] == recolored(old(world)@[j]),
            forall|j: int| i <= j < n ==> #[trigger] world@[j] == old(world)@[j],
            forall|j: int| 0 <= j < n ==> #[trigger] player_id(world@[j]) == player_id(old(world)@[j]),
        decreases n - i,
    {
        if let Some(e) = world.slots[i] {
            if let (Some(l), Some(c), Some(sp)) = (e.lifetime, e.color_lerp, e.sprite) {
                let color = color_at(&c, &l);
                proof {
                    lemma_replace_keeps_wf(world@, i as int, Entity { sprite: Some(Sprite { color, ..sp }), ..e });
                }
                world.slots[i] = Some(Entity { sprite: Some(Sprite { color, ..sp }), ..e });
            }
        }
        i = i + 1;
    }
}

fn clamp_i64(v: i64, lo: i64, hi: i64) -> (r: i64)
    ensures
        r == clamp(v as int, lo as int, hi as int),
{
    if v < lo {
        lo
    } else if v > hi {
        hi
    } else {
        v
    }
}

/// Holds every entity that moved this tick, or was created at or after slot `first_new`,
/// inside the play field: `[-512, 512]` pixels across and `[-384, 384]` pixels down.
pub fn clamp_positions(world: &mut World, first_new: usize)
    requires
        old(world).wf(),
    ensures
        final(world).wf(),
        final(world)@.len() == old(world)@.len(),
        forall|i: int|
            0 <= i < old(world)@.len() ==> #[trigger] final(world)@[i] == kept_in_field(
                old(world)@[i],
                i,
                first_new as int,
            ),
{
    let n = world.slots.len();
    let mut i: usize = 0;
    while i < n
        invariant
            n == old(world)@.len(),
            0 <= i <= n,
            world.wf(),
            world@.len() == n,
            forall|j: int| 0 <= j < i ==> #[trigger] world@[j] == kept_in_field(old(world)@[j], j, first_new as int),
            forall|j: int| i <= j < n ==> #[trigger] world@[j] == old(world)@[j],
            forall|j: int| 0 <= j < n ==> #[trigger] player_id(world@[j]) == player_id(old(world)@[j]),
        decreases n - i,
    {
        if let Some(e) = world.slots[i] {
            if let Some(t) = e.transform {
                if e.velocity.is_some() || i >= first_new {
                    let nt = Transform {
                        x: clamp_i64(t.x, -HALF_WIDTH, HALF_WIDTH),
                        y: clamp_i64(t.y, -HALF_HEIGHT, HALF_HEIGHT),
                        ..t
                    };
                    proof {
                        lemma_replace_keeps_wf(world@, i as int, Entity { transform: Some(nt), ..e });
                    }
                    world.slots[i] = Some(Entity { transform: Some(nt), ..e });
                }
            }
        }
        i = i + 1;
    }
}

/// Positions of the attractors among `s`, in slot order.
pub open spec fn attractor_positions(s: Seq<Option<Entity>>) -> Seq<Transform>
    decreases s.len(),
{
    if s.len() == 0 {
        Seq::empty()
    } else {
        let rest = attractor_positions(s.drop_last());
        match s.last() {
            Some(e) => match (e.attractor, e.transform) {
                (Some(_), Some(t)) => rest.push(t),
                _ => rest,
            },
            None => rest,
        }
    }
}

/// Velocity `v` of an entity at `t` after the pull of each attractor in `a`, in order.
pub open spec fn pulled(a: Seq<Transform>, t: Transform, v: Velocity, elapsed: int) -> Velocity
    decreases a.len(),
{
    if a.len() == 0 {
        v
    } else {
        attracted(a.last(), t, pulled(a.drop_last(), t, v, elapsed), elapsed)
    }
}

/// A slot after the attractors at `a` pull on it.
pub open spec fn gravitated(o: Option<Entity>, a: Seq<Transform>, elapsed: int) -> Option<Entity> {
    match o {
        Some(e) => match (e.transform, e.velocity) {
            (Some(t), Some(v)) => Some(Entity { velocity: Some(pulled(a, t, v, elapsed)), ..e }),
            _ => o,
        },
        None => None,
    }
}

fn collect_attractors(world: &World) -> (r: Vec<Transform>)
    requires
        world.wf(),
    ensures
        r@ == attractor_positions(world@),
        forall|k: int| 0 <= k < r@.len() ==> (#[trigger] r@[k]).wf(),
{
    let mut r: Vec<Transform> = Vec::new();
    let mut i: usize = 0;
    while i < world.slots.len()
        invariant
            0 <= i <= world@.len(),
            world.wf(),
            r@ == attractor_positions(world@.take(i as int)),
            forall|k: int| 0 <= k < r@.len() ==> (#[trigger] r@[k]).wf(),
        decreases world@.len() - i,
    {
        assert(world@.take(i + 1).drop_last() =~= world@.take(i as int));
        if let Some(e) = world.slots[i] {
            if let (Some(_), Some(t)) = (e.attractor, e.transform) {
                r.push(t);
            }
        }
        i = i + 1;
    }
    assert(world@.take(world@.len() as int) =~= world@);
    r
}

/// Every attractor pulls on every entity with a transform and a velocity: the velocity
/// gains, on x and y, the normalised offset toward the attractor divided by the squared
/// distance (depth included), times 2000 and the elapsed fraction of a 33 ms frame.
/// An entity at distance zero from an attractor feels no pull from it.
pub fn velocity_attractor_2d(world: &mut World, elapsed: u32)
    requires
        old(world).wf(),
    ensures
        final(world).wf(),
        final(world)@.len() == old(world)@.len(),
        forall|i: int|
            0 <= i < old(world)@.len() ==> #[trigger] final(world)@[i] == gravitated(
                old(world)@[i],
                attractor_positions(old(world)@),
                elapsed as int,
            ),
{
    let atts = collect_attractors(world);
    let ghost a = attractor_positions(old(world)@);
    let n = world.slots.len();
    let mut i: usize = 0;
    while i < n
        invariant
            n == old(world)@.len(),
            0 <= i <= n,
            world.wf(),
            world@.len() == n,
            atts@ == a,
            forall|k: int| 0 <= k < atts@.len() ==> (#[trigger] atts@[k]).wf(),
            forall|j: int| 0 <= j < i ==> #[trigger] world@[j] == gravitated(old(world)@[j], a, elapsed as int),
            forall|j: int| i <= j < n ==> #[trigger] world@[j] == old(world)@[j],
            forall|j: int| 0 <= j < n ==> #[trigger] player_id(world@[j]) == player_id(old(world)@[j]),
        decreases n - i,
    {
        if let Some(e) = world.slots[i] {
            if let (Some(t), Some(v0)) = (e.transform, e.velocity) {
                let mut v = v0;
                let mut k: usize = 0;
                while k < atts.len()
                    invariant
                        0 <= k <= atts@.len(),
                        t.wf(),
                        v.wf(),
                        forall|m: int| 0 <= m < atts@.len() ==> (#[trigger] atts@[m]).wf(),
                        v == pulled(atts@.take(k as int), t, v0, elapsed as int),
                    decreases atts@.len() - k,
                {
                    assert(atts@.take(k + 1).drop_last() =~= atts@.take(k as int));
                    v = attraction_step(&atts[k], &t, &v, elapsed);
                    k = k + 1;
                }
                assert(atts@.take(atts@.len() as int) =~= atts@);
                proof {
                    lemma_replace_keeps_wf(world@, i as int, Entity { velocity: Some(v), ..e });
                }
                world.slots[i] = Some(Entity { velocity: Some(v), ..e });
            }
        }
        i = i + 1;
    }
}

} // verus!
