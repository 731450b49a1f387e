use vstd::prelude::*;
use crate::physics::{Transform, Velocity, VEL_LIMIT, saturate, saturate_i128, push_vector, bounce_push, trunc_div, capped, cap_speed};
use crate::collision::{BoundingBox2D, first_hit, find_one_collision};
use crate::particles::{Color, ParticleLifetime, ParticleColorLerp};
use crate::trig::{sine, cosine, sine_milli, cosine_milli};
use crate::world::{Entity, World, Sprite, player_id, slots_wf, lemma_replace_keeps_wf};
use crate::mode::GameMode;

verus! {

/// Atlas slice drawn for particles.
pub const PARTICLE_SPRITE: usize = 2;

/// Atlas slice drawn for salvage.
pub const SALVAGE_SPRITE: usize = 4;

/// Particles in one burst: one per whole degree.
pub const BURST_SIZE: u32 = 360;

/// Lifetime of a trail particle, in milliseconds.
pub const TRAIL_LIFETIME: u32 = 2000;

pub open spec fn white() -> Color {
    Color { r: 255, g: 255, b: 255, a: 255 }
}

pub open spec fn black() -> Color {
    Color { r: 0, g: 0, b: 0, a: 255 }
}

/// A particle of the play scene at `pos` with the given motion, colors and lifetime.
pub open spec fn particle(pos: Transform, v: Velocity, start: Color, end: Color, lifetime: u32) -> Entity {
    Entity {
        transform: Some(Transform { x: pos.x, y: pos.y, z: pos.z, rotation: 0 }),
        velocity: Some(v),
        bounds: None,
        attractor: None,
        player: None,
        emit_trail: false,
        salvage: false,
        lifetime: Some(ParticleLifetime { elapsed: 0, max: lifetime }),
        color_lerp: Some(ParticleColorLerp { start, end }),
        sprite: Some(Sprite { index: PARTICLE_SPRITE, color: white() }),
        scene: Some(GameMode::Playing),
    }
}

/// The `k`-th particle of a burst: it leaves `pos` at one pixel per frame, `k` degrees
/// counter-clockwise from the positive x axis.
pub open spec fn burst_particle(pos: Transform, k: int, start: Color, end: Color, lifetime: u32) -> Entity {
    particle(
        pos,
        Velocity { x: cosine_milli(k as u32) as i64, y: sine_milli(k as u32) as i64 },
        start,
        end,
        lifetime,
    )
}

/// The entities a burst adds, in order of angle.
pub open spec fn burst(pos: Transform, start: Color, end: Color, lifetime: u32) -> Seq<Option<Entity>> {
    Seq::new(BURST_SIZE as nat, |k: int| Some(burst_particle(pos, k, start, end, lifetime)))
}

fn make_particle(pos: &Transform, v: Velocity, start: Color, end: Color, lifetime: u32) -> (e: Entity)
    requires
        pos.wf(),
        v.wf(),
        lifetime > 0,
    ensures
        e == particle(*pos, v, start, end, lifetime),
        e.wf(),
{
    Entity {
        transform: Some(Transform::from_xyz(pos.x, pos.y, pos.z)),
        velocity: Some(v),
        bounds: None,
        attractor: None,
        player: None,
        emit_trail: false,
        salvage: false,
        lifetime: Some(ParticleLifetime::new(lifetime)),
        color_lerp: Some(ParticleColorLerp { start, end }),
        sprite: Some(Sprite { index: PARTICLE_SPRITE, color: Color::white() }),
        scene: Some(GameMode::Playing),
    }
}

/// Spawns a ring of 360 particles at `pos`, one per degree, each moving outward at one
/// pixel per frame and fading from `start` to `end` over `lifetime` milliseconds.
pub fn spawn_particle_burst(world: &mut World, pos: &Transform, start: Color, end: Color, lifetime: u32)
    requires
        old(world).wf(),
        pos.wf(),
        lifetime > 0,
    ensures
        final(world).wf(),
        final(world)@ == old(world)@ + burst(*pos, start, end, lifetime),
{
    let mut k: u32 = 0;
    while k < BURST_SIZE
        invariant
            0 <= k <= BURST_SIZE,
            pos.wf(),
            lifetime > 0,
            world.wf(),
            world@ == old(world)@ + burst(*pos, start, end, lifetime).take(k as int),
        decreases BURST_SIZE - k,
    {
        let v = Velocity { x: cosine(k), y: sine(k) };
        let e = make_particle(pos, v, start, end, lifetime);
        world.spawn(e);
        assert(burst(*pos, start, end, lifetime).take(k + 1) =~= burst(*pos, start, end, lifetime).take(
            k as int,
        ).push(Some(e)));
        k = k + 1;
    }
    assert(burst(*pos, start, end, lifetime).take(BURST_SIZE as int) =~= burst(*pos, start, end, lifetime));
}

/// Colors of the trail left by an emitter: yellow for player 0, purple for player 1,
/// white for anything else, each fading to black.
pub open spec fn trail_start(e: Entity) -> Color {
    match e.player {
        Some(p) => if p.id == 0 {
            Color { r: 255, g: 255, b: 0, a: 255 }
        } else {
            Color { r: 128, g: 0, b: 128, a: 255 }
        },
        None => white(),
    }
}

/// The trail particles that the emitters among `s` leave, in slot order.
pub open spec fn trail_particles(s: Seq<Option<Entity>>) -> Seq<Option<Entity>>
    decreases s.len(),
{
    if s.len() == 0 {
        Seq::empty()
    } else {
        let rest = trail_particles(s.drop_last());
        match s.last() {
            Some(e) => match e.transform {
                Some(t) => if e.emit_trail {
                    rest.push(
                        Some(particle(t, Velocity { x: 0, y: 0 }, trail_start(e), black(), TRAIL_LIFETIME)),
                    )
                } else {
                    rest
                },
                None => rest,
            },
            None => rest,
        }
    }
}

/// Every trail emitter leaves one motionless particle at its position, living 2000 ms.
pub fn emit_trails(world: &mut World)
    requires
        old(world).wf(),
    ensures
        final(world).wf(),
        final(world)@ == old(world)@ + trail_particles(old(world)@),
{
    let n = world.slots.len();
    let mut i: usize = 0;
    while i < n
        invariant
            n == old(world)@.len(),
            0 <= i <= n,
            world.wf(),
            world@ == old(world)@ + trail_particles(old(world)@.take(i as int)),
        decreases n - i,
    {
        let ghost prefix = old(world)@.take(i as int);
        assert(old(world)@.take(i + 1).drop_last() =~= prefix);
        assert(world@[i as int] == old(world)@[i as int]);
        if let Some(e) = world.slots[i] {
            if let Some(t) = e.transform {
                if e.emit_trail {
                    let start = match e.player {
                        Some(p) => if p.id == 0 {
                            Color::yellow()
                        } else {
                            Color::purple()
                        },
                        None => Color::white(),
                    };
                    let p = make_particle(&t, Velocity { x: 0, y: 0 }, start, Color::black(), TRAIL_LIFETIME);
                    world.spawn(p);
                }
            }
        }
        i = i + 1;
    }
    assert(old(world)@.take(n as int) =~= old(world)@);
}

/// Boxed entities among `s`, in slot order, as (id, position, box): salvage when
/// `salvage_only`, otherwise everything that is not an attractor.
pub open spec fn targets(s: Seq<Option<Entity>>, salvage_only: bool) -> Seq<(usize, Transform, BoundingBox2D)>
    decreases s.len(),
{
    if s.len() == 0 {
        Seq::empty()
    } else {
        let rest = targets(s.drop_last(), salvage_only);
        match s.last() {
            Some(e) => match (e.transform, e.bounds) {
                (Some(t), Some(b)) => if (if salvage_only { e.salvage } else { e.attractor.is_none() }) {
                    rest.push(((s.len() - 1) as usize, t, b))
                } else {
                    rest
                },
                _ => rest,
            },
            None => rest,
        }
    }
}

fn collect_targets(world: &World, salvage_only: bool) -> (r: Vec<(usize, Transform, BoundingBox2D)>)
    requires
        world.wf(),
    ensures
        r@ == targets(world@, salvage_only),
        forall|k: int|
            0 <= k < r@.len() ==> (#[trigger] r@[k]).1.wf() && r@[k].2.wf() && r@[k].0 < world@.len(),
{
    let mut r: Vec<(usize, Transform, BoundingBox2D)> = Vec::new();
    let mut i: usize = 0;
    while i < world.slots.len()
        invariant
            0 <= i <= world@.len(),
            world.wf(),
            r@ == targets(world@.take(i as int), salvage_only),
            forall|k: int| 0 <= k < r@.len() ==> (#[trigger] r@[k]).1.wf() && r@[k].2.wf() && r@[k].0 < i,
        decreases world@.len() - i,
    {
        assert(world@.take(i + 1).drop_last() =~= world@.take(i as int));
        if let Some(e) = world.slots[i] {
            if let (Some(t), Some(b)) = (e.transform, e.bounds) {
                if (if salvage_only { e.salvage } else { e.attractor.is_none() }) {
                    r.push((i, t, b));
                }
            }
        }
        i = i + 1;
    }
    assert(world@.take(world@.len() as int) =~= world@);
    r
}

/// Attractors among `s` that have a position and a box, in slot order.
pub open spec fn holes(s: Seq<Option<Entity>>) -> Seq<(Transform, BoundingBox2D)>
    decreases s.len(),
{
    if s.len() == 0 {
        Seq::empty()
    } else {
        let rest = holes(s.drop_last());
        match s.last() {
            Some(e) => match (e.attractor, e.transform, e.bounds) {
                (Some(_), Some(t), Some(b)) => rest.push((t, b)),
                _ => rest,
            },
            None => rest,
        }
    }
}

fn collect_holes(world: &World) -> (r: Vec<(Transform, BoundingBox2D)>)
    requires
        world.wf(),
    ensures
        r@ == holes(world@),
        forall|k: int| 0 <= k < r@.len() ==> (#[trigger] r@[k]).0.wf() && r@[k].1.wf(),
{
    let mut r: Vec<(Transform, BoundingBox2D)> = Vec::new();
    let mut i: usize = 0;
    while i < world.slots.len()
        invariant
            0 <= i <= world@.len(),
            world.wf(),
            r@ == holes(world@.take(i as int)),
            forall|k: int| 0 <= k < r@.len() ==> (#[trigger] r@[k]).0.wf() && r@[k].1.wf(),
        decreases world@.len() - i,
    {
        assert(world@.take(i + 1).drop_last() =~= world@.take(i as int));
        if let Some(e) = world.slots[i] {
            if let (Some(_), Some(t), Some(b)) = (e.attractor, e.transform, e.bounds) {
                r.push((t, b));
            }
        }
        i = i + 1;
    }
    assert(world@.take(world@.len() as int) =~= world@);
    r
}

/// The entity that the `k`-th attractor of `s` swallows, if any.
pub open spec fn hole_victim(s: Seq<Option<Entity>>, k: int) -> Option<usize> {
    first_hit(holes(s)[k].0, holes(s)[k].1, targets(s, false))
}

/// Some attractor of `s` swallows entity `i`.
pub open spec fn absorbed(s: Seq<Option<Entity>>, i: int) -> bool {
    exists|k: int| 0 <= k < holes(s).len() && #[trigger] hole_victim(s, k) == Some(i as usize)
}

/// Each attractor destroys the first non-attractor entity whose box overlaps its own.
pub fn black_hole(world: &mut World)
    requires
        old(world).wf(),
    ensures
        final(world).wf(),
        final(world)@.len() == old(world)@.len(),
        forall|i: int|
            0 <= i < old(world)@.len() ==> #[trigger] final(world)@[i] == (if absorbed(old(world)@, i) {
                None
            } else {
                old(world)@[i]
            }),
{
    let hs = collect_holes(world);
    let cands = collect_targets(world, false);
    let ghost s = old(world)@;
    let n = world.slots.len();
    let mut k: usize = 0;
    while k < hs.len()
        invariant
            s == old(world)@,
            n == s.len(),
            hs@ == holes(s),
            cands@ == targets(s, false),
            forall|m: int| 0 <= m < hs@.len() ==> (#[trigger] hs@[m]).0.wf() && hs@[m].1.wf(),
            forall|m: int| 0 <= m < cands@.len() ==> (#[trigger] cands@[m]).1.wf() && cands@[m].2.wf() && cands@[m].0 < n,
            0 <= k <= hs@.len(),
            world.wf(),
            world@.len() == n,
            forall|i: int|
                0 <= i < n ==> #[trigger] world@[i] == (if exists|m: int| 0 <= m < k && #[trigger] hole_victim(s, m) == Some(i as usize) {
                    None
                } else {
                    s[i]
                }),
        decreases hs@.len() - k,
    {
        let (ht, hb) = hs[k];
        let hit = find_one_collision(&ht, &hb, cands.as_slice());
        let ghost before = world@;
        if let Some(id) = hit {
            world.despawn(id);
        }
        assert forall|i: int| 0 <= i < n implies #[trigger] world@[i] == (if exists|m: int| 0 <= m < k + 1 && #[trigger] hole_victim(s, m) == Some(i as usize) {
            None
        } else {
            s[i]
        }) by {
            if hole_victim(s, k as int) == Some(i as usize) {
                assert(world@[i] == None::<Entity>);
            } else {
                assert(world@[i] == before[i]);
                if exists|m: int| 0 <= m < k + 1 && #[trigger] hole_victim(s, m) == Some(i as usize) {
                    let m = choose|m: int| 0 <= m < k + 1 && #[trigger] hole_victim(s, m) == Some(i as usize);
                    assert(m < k);
                }
            }
        }
        k = k + 1;
    }
    assert forall|i: int| 0 <= i < n implies #[trigger] world@[i] == (if absorbed(s, i) { None } else { s[i] }) by {
        if absorbed(s, i) {
            let m = choose|m: int| 0 <= m < holes(s).len() && #[trigger] hole_victim(s, m) == Some(i as usize);
            assert(0 <= m < k && hole_victim(s, m) == Some(i as usize));
        }
    }
}

/// Points per player, indexed by player id.
pub struct Scores {
    pub points: Vec<u32>,
}

impl View for Scores {
    type V = Seq<u32>;

    open spec fn view(&self) -> Seq<u32> {
        self.points@
    }
}

impl Scores {
    /// Zero points for both players.
    pub fn new() -> (r: Scores)
        ensures
            r@ == seq![0u32, 0u32],
    {
        let mut points: Vec<u32> = Vec::new();
        points.push(0);
        points.push(0);
        Scores { points }
    }
}

/// Players among `s` that have a position and a box, in slot order, as (player id, position, box).
pub open spec fn scorers(s: Seq<Option<Entity>>) -> Seq<(usize, Transform, BoundingBox2D)>
    decreases s.len(),
{
    if s.len() == 0 {
        Seq::empty()
    } else {
        let rest = scorers(s.drop_last());
        match s.last() {
            Some(e) => match (e.player, e.transform, e.bounds) {
                (Some(p), Some(t), Some(b)) => rest.push((p.id, t, b)),
                _ => rest,
            },
            None => rest,
        }
    }
}

fn collect_scorers(world: &World) -> (r: Vec<(usize, Transform, BoundingBox2D)>)
    requires
        world.wf(),
    ensures
        r@ == scorers(world@),
        forall|k: int| 0 <= k < r@.len() ==> (#[trigger] r@[k]).1.wf() && r@[k].2.wf() && r@[k].0 < 2,
{
    let mut r: Vec<(usize, Transform, BoundingBox2D)> = Vec::new();
    let mut i: usize = 0;
    while i < world.slots.len()
        invariant
            0 <= i <= world@.len(),
            world.wf(),
            r@ == scorers(world@.take(i as int)),
            forall|k: int| 0 <= k < r@.len() ==> (#[trigger] r@[k]).1.wf() && r@[k].2.wf() && r@[k].0 < 2,
        decreases world@.len() - i,
    {
        assert(world@.take(i + 1).drop_last() =~= world@.take(i as int));
        if let Some(e) = world.slots[i] {
            if let (Some(p), Some(t), Some(b)) = (e.player, e.transform, e.bounds) {
                r.push((p.id, t, b));
            }
        }
        i = i + 1;
    }
    assert(world@.take(world@.len() as int) =~= world@);
    r
}

/// Lifetime of a collection burst, in milliseconds.
pub const COLLECT_LIFETIME: u32 = 2000;

/// The salvage that the `k`-th player of `s` picks up, if any.
pub open spec fn pickup(s: Seq<Option<Entity>>, k: int) -> Option<usize> {
    first_hit(scorers(s)[k].1, scorers(s)[k].2, targets(s, true))
}

/// Some player of `s` picks up entity `i`.
pub open spec fn collected(s: Seq<Option<Entity>>, i: int) -> bool {
    exists|k: int| 0 <= k < scorers(s).len() && #[trigger] pickup(s, k) == Some(i as usize)
}

/// The bursts that the first `k` players of `s` set off by picking up salvage, in order:
/// green fading to yellow over 2000 ms at the player's position.
pub open spec fn pickup_bursts(s: Seq<Option<Entity>>, k: int) -> Seq<Option<Entity>>
    decreases k,
{
    if k <= 0 {
        Seq::empty()
    } else {
        pickup_bursts(s, k - 1) + match pickup(s, k - 1) {
            Some(_) => burst(
                scorers(s)[k - 1].1,
                Color { r: 0, g: 255, b: 0, a: 255 },
                Color { r: 255, g: 255, b: 0, a: 255 },
                COLLECT_LIFETIME,
            ),
            None => Seq::empty(),
        }
    }
}

/// Pickups among the first `k` players of `s` that score for player `id`.
pub open spec fn pickups_for(s: Seq<Option<Entity>>, k: int, id: int) -> nat
    decreases k,
{
    if k <= 0 {
        0
    } else {
        pickups_for(s, k - 1, id) + if scorers(s)[k - 1].0 == id && pickup(s, k - 1).is_some() {
            1nat
        } else {
            0nat
        }
    }
}

/// `a + b`, held at the largest `u32`.
pub open spec fn add_capped(a: int, b: int) -> int {
    if a + b > u32::MAX {
        u32::MAX as int
    } else {
        a + b
    }
}

/// Each player picks up the first salvage whose box overlaps its own: the salvage is
/// destroyed, the player's score grows by one (held at the largest `u32`), and a
/// green-to-yellow burst of 2000 ms appears at the player's position.
pub fn collect_salvage(world: &mut World, scores: &mut Scores)
    requires
        old(world).wf(),
        old(scores)@.len() == 2,
    ensures
        final(world).wf(),
        final(scores)@.len() == 2,
        final(world)@.len() == old(world)@.len() + pickup_bursts(old(world)@, scorers(old(world)@).len() as int).len(),
        forall|i: int|
            0 <= i < old(world)@.len() ==> #[trigger] final(world)@[i] == (if collected(old(world)@, i) {
                None
            } else {
                old(world)@[i]
            }),
        final(world)@.subrange(old(world)@.len() as int, final(world)@.len() as int) == pickup_bursts(
            old(world)@,
            scorers(old(world)@).len() as int,
        ),
        forall|id: int|
            0 <= id < 2 ==> #[trigger] final(scores)@[id] == add_capped(
                old(scores)@[id] as int,
                pickups_for(old(world)@, scorers(old(world)@).len() as int, id) as int,
            ),
{
    let ps = collect_scorers(world);
    let cands = collect_targets(world, true);
    let ghost s = old(world)@;
    let n = world.slots.len();
    let mut k: usize = 0;
    while k < ps.len()
        invariant
            s == old(world)@,
            n == s.len(),
            ps@ == scorers(s),
            cands@ == targets(s, true),
            forall|m: int| 0 <= m < ps@.len() ==> (#[trigger] ps@[m]).1.wf() && ps@[m].2.wf() && ps@[m].0 < 2,
            forall|m: int| 0 <= m < cands@.len() ==> (#[trigger] cands@[m]).1.wf() && cands@[m].2.wf() && cands@[m].0 < n,
            0 <= k <= ps@.len(),
            world.wf(),
            scores@.len() == 2,
            world@.len() == n + pickup_bursts(s, k as int).len(),
            forall|i: int|
                0 <= i < n ==> #[trigger] world@[i] == (if exists|m: int| 0 <= m < k && #[trigger] pickup(s, m) == Some(i as usize) {
                    None
                } else {
                    s[i]
                }),
            world@.subrange(n as int, world@.len() as int) == pickup_bursts(s, k as int),
            forall|id: int|
                0 <= id < 2 ==> #[trigger] scores@[id] == add_capped(
                    old(scores)@[id] as int,
                    pickups_for(s, k as int, id) as int,
                ),
        decreases ps@.len() - k,
    {
        let (pid, pt, pb) = ps[k];
        let hit = find_one_collision(&pt, &pb, cands.as_slice());
        let ghost before = world@;
        let ghost before_scores = scores@;
        if let Some(id) = hit {
            world.despawn(id);
            assert(world@.subrange(n as int, world@.len() as int) =~= before.subrange(n as int, before.len() as int));
            let cur = scores.points[pid];
            if cur < u32::MAX {
                scores.points.set(pid, cur + 1);
            }
            let ghost mid = world@;
            spawn_particle_burst(world, &pt, Color::green(), Color::yellow(), COLLECT_LIFETIME);
            assert(world@.subrange(n as int, world@.len() as int) =~= mid.subrange(n as int, mid.len() as int)
                + burst(pt, Color { r: 0, g: 255, b: 0, a: 255 }, Color { r: 255, g: 255, b: 0, a: 255 }, COLLECT_LIFETIME));
        } else {
            assert(pickup_bursts(s, k + 1) =~= pickup_bursts(s, k as int));
        }
        assert forall|i: int| 0 <= i < n implies #[trigger] world@[i] == (if exists|m: int| 0 <= m < k + 1 && #[trigger] pickup(s, m) == Some(i as usize) {
            None
        } else {
            s[i]
        }) by {
            if pickup(s, k as int) == Some(i as usize) {
                assert(world@[i] == None::<Entity>);
            } else {
                assert(world@[i] == before[i]);
                if exists|m: int| 0 <= m < k + 1 && #[trigger] pickup(s, m) == Some(i as usize) {
                    let m = choose|m: int| 0 <= m < k + 1 && #[trigger] pickup(s, m) == Some(i as usize);
                    assert(m < k);
                }
            }
        }
        k = k + 1;
    }
    assert forall|i: int| 0 <= i < n implies #[trigger] world@[i] == (if collected(s, i) { None } else { s[i] }) by {
        if collected(s, i) {
            let m = choose|m: int| 0 <= m < scorers(s).len() && #[trigger] pickup(s, m) == Some(i as usize);
            assert(0 <= m < k && pickup(s, m) == Some(i as usize));
        }
    }
}

/// Lifetime of a bounce burst, in milliseconds.
pub const BOUNCE_LIFETIME: u32 = 1000;

/// The slot holds a player that can bounce: it has a position, a velocity and a box.
pub open spec fn is_bouncer(o: Option<Entity>) -> bool {
    match o {
        Some(e) => e.player.is_some() && e.transform.is_some() && e.velocity.is_some() && e.bounds.is_some(),
        None => false,
    }
}

/// Slots of the players among `s` that can bounce, in order.
pub open spec fn bouncers(s: Seq<Option<Entity>>) -> Seq<usize>
    decreases s.len(),
{
    if s.len() == 0 {
        Seq::empty()
    } else {
        let rest = bouncers(s.drop_last());
        if is_bouncer(s.last()) {
            rest.push((s.len() - 1) as usize)
        } else {
            rest
        }
    }
}

proof fn lemma_bouncers_facts(s: Seq<Option<Entity>>)
    requires
        s.len() <= usize::MAX,
    ensures
        forall|k: int|
            0 <= k < bouncers(s).len() ==> (#[trigger] bouncers(s)[k]) < s.len() && is_bouncer(s[bouncers(s)[k] as int]),
        forall|k: int, l: int| 0 <= k < l < bouncers(s).len() ==> #[trigger] bouncers(s)[k] < #[trigger] bouncers(s)[l],
    decreases s.len(),
{
    if s.len() > 0 {
        let t = s.drop_last();
        lemma_bouncers_facts(t);
        let r = bouncers(t);
        assert forall|j: int| 0 <= j < t.len() implies #[trigger] t[j] == s[j] by {}
        if is_bouncer(s.last()) {
            let b = r.push((s.len() - 1) as usize);
            assert(bouncers(s) == b);
            assert forall|k: int| 0 <= k < b.len() implies (#[trigger] b[k]) < s.len() && is_bouncer(s[b[k] as int]) by {
                if k < r.len() {
                    assert(b[k] == r[k]);
                    assert(t[r[k] as int] == s[r[k] as int]);
                }
            }
            assert forall|k: int, l: int| 0 <= k < l < b.len() implies #[trigger] b[k] < #[trigger] b[l] by {
                if l < r.len() {
                    assert(b[k] == r[k] && b[l] == r[l]);
                } else {
                    assert(b[k] == r[k]);
                }
            }
        } else {
            assert(bouncers(s) == r);
            assert forall|k: int| 0 <= k < r.len() implies (#[trigger] r[k]) < s.len() && is_bouncer(s[r[k] as int]) by {
                assert(t[r[k] as int] == s[r[k] as int]);
            }
        }
    }
}

/// A well-formed store holds at most two players that can bounce, so the bounce rule's
/// first two bouncers are every pair there is.
pub proof fn lemma_at_most_two_bouncers(s: Seq<Option<Entity>>)
    requires
        slots_wf(s),
        s.len() <= usize::MAX,
    ensures
        bouncers(s).len() <= 2,
{
    lemma_bouncers_facts(s);
    let b = bouncers(s);
    if b.len() >= 3 {
        let i = b[0] as int;
        let j = b[1] as int;
        let k = b[2] as int;
        assert(is_bouncer(s[i]) && is_bouncer(s[j]) && is_bouncer(s[k]));
        assert(s[i]->Some_0.wf() && s[j]->Some_0.wf() && s[k]->Some_0.wf());
        assert(player_id(s[i]).is_some() && player_id(s[j]).is_some() && player_id(s[k]).is_some());
        assert(b[0] < b[1] && b[1] < b[2]);
        if player_id(s[i]) == player_id(s[j]) {
            assert(i == j);
        } else if player_id(s[i]) == player_id(s[k]) {
            assert(i == k);
        } else {
            assert(player_id(s[j]) == player_id(s[k]));
            assert(j == k);
        }
    }
}

/// `e` with its velocity moved by `sign` times `p`, each component held within range.
pub open spec fn pushed(e: Entity, p: Velocity, sign: int) -> Entity {
    let v = e.velocity->Some_0;
    Entity {
        velocity: Some(
            Velocity {
                x: saturate(v.x + sign * p.x, VEL_LIMIT as int) as i64,
                y: saturate(v.y + sign * p.y, VEL_LIMIT as int) as i64,
            },
        ),
        ..e
    }
}

/// The store after the bounce rule: when the first two bouncing players overlap, each
/// is pushed away from the other by one pixel per frame, and a cyan-to-blue burst of
/// 1000 ms appears at the first one's position.
pub open spec fn bounced(s: Seq<Option<Entity>>) -> Seq<Option<Entity>> {
    let b = bouncers(s);
    if b.len() >= 2 {
        let ea = s[b[0] as int]->Some_0;
        let eb = s[b[1] as int]->Some_0;
        let ta = ea.transform->Some_0;
        let tb = eb.transform->Some_0;
        if ea.bounds->Some_0.hits(ta, eb.bounds->Some_0, tb) {
            let p = push_vector(ta, tb);
            s.update(b[0] as int, Some(pushed(ea, p, 1))).update(b[1] as int, Some(pushed(eb, p, -1)))
                + burst(ta, Color { r: 0, g: 255, b: 255, a: 255 }, Color { r: 0, g: 0, b: 255, a: 255 }, BOUNCE_LIFETIME)
        } else {
            s
        }
    } else {
        s
    }
}

fn collect_bouncers(world: &World) -> (r: Vec<usize>)
    requires
        world.wf(),
    ensures
        r@ == bouncers(world@),
        forall|k: int| 0 <= k < r@.len() ==> (#[trigger] r@[k]) < world@.len() && is_bouncer(world@[r@[k] as int]),
        forall|k: int, l: int| 0 <= k < l < r@.len() ==> #[trigger] r@[k] < #[trigger] r@[l],
{
    let mut r: Vec<usize> = Vec::new();
    let mut i: usize = 0;
    while i < world.slots.len()
        invariant
            0 <= i <= world@.len(),
            world.wf(),
            r@ == bouncers(world@.take(i as int)),
            forall|k: int| 0 <= k < r@.len() ==> (#[trigger] r@[k]) < i && is_bouncer(world@[r@[k] as int]),
            forall|k: int, l: int| 0 <= k < l < r@.len() ==> #[trigger] r@[k] < #[trigger] r@[l],
        decreases world@.len() - i,
    {
        assert(world@.take(i + 1).drop_last() =~= world@.take(i as int));
        assert(world@.take(i + 1).last() == world@[i as int]);
        if let Some(e) = world.slots[i] {
            if e.player.is_some() && e.transform.is_some() && e.velocity.is_some() && e.bounds.is_some() {
                r.push(i);
            }
        }
        i = i + 1;
    }
    assert(world@.take(world@.len() as int) =~= world@);
    r
}

fn push_entity(e: Entity, p: Velocity, away: bool) -> (r: Entity)
    requires
        e.velocity.is_some(),
        e.wf(),
        -0x8_0000_0000_0000 <= p.x <= 0x8_0000_0000_0000,
        -0x8_0000_0000_0000 <= p.y <= 0x8_0000_0000_0000,
    ensures
        r == pushed(e, p, if away { 1 } else { -1 }),
        r.wf(),
        r.player == e.player,
{
    let v = e.velocity.unwrap();
    let (dx, dy) = if away { (p.x as i128, p.y as i128) } else { (-(p.x as i128), -(p.y as i128)) };
    let nv = Velocity {
        x: saturate_i128(v.x as i128 + dx, VEL_LIMIT),
        y: saturate_i128(v.y as i128 + dy, VEL_LIMIT),
    };
    Entity { velocity: Some(nv), ..e }
}

/// Applies the bounce rule.
pub fn bounce(world: &mut World)
    requires
        old(world).wf(),
    ensures
        final(world).wf(),
        final(world)@ == bounced(old(world)@),
{
    let b = collect_bouncers(world);
    if b.len() < 2 {
        return;
    }
    let ia = b[0];
    let ib = b[1];
    let ea = world.slots[ia].unwrap();
    let eb = world.slots[ib].unwrap();
    let ta = ea.transform.unwrap();
    let tb = eb.transform.unwrap();
    let ba = ea.bounds.unwrap();
    let bb = eb.bounds.unwrap();
    if !ba.collides_with(&ta, &bb, &tb) {
        return;
    }
    let p = bounce_push(&ta, &tb);
    let na = push_entity(ea, p, true);
    let nb = push_entity(eb, p, false);
    proof {
        lemma_replace_keeps_wf(world@, ia as int, na);
    }
    world.slots[ia] = Some(na);
    proof {
        lemma_replace_keeps_wf(world@, ib as int, nb);
    }
    world.slots[ib] = Some(nb);
    spawn_particle_burst(world, &ta, Color::cyan(), Color::blue(), BOUNCE_LIFETIME);
}

/// Side of a ship's, the well's and a salvage's box: 24 pixels, in sub-units.
pub const BOX_SIDE: i64 = 792000;

/// Lifetime of the burst that announces new salvage, in milliseconds.
pub const SALVAGE_BURST_LIFETIME: u32 = 1000;

/// Salvage placed from four draws: `px < 1024` and `py < 768` pick a pixel of the play
/// field (offset so the field is centred on the origin), `vx < 20` and `vy < 20` a speed
/// of `(v - 10) / 5` pixels per frame on each axis. It sits at depth one pixel.
pub open spec fn salvage_entity(px: int, py: int, vx: int, vy: int) -> Entity {
    Entity {
        transform: Some(Transform { x: ((px - 512) * 33000) as i64, y: ((py - 384) * 33000) as i64, z: 33000, rotation: 0 }),
        velocity: Some(Velocity { x: ((vx - 10) * 200) as i64, y: ((vy - 10) * 200) as i64 }),
        bounds: Some(BoundingBox2D { width: BOX_SIDE, height: BOX_SIDE }),
        attractor: None,
        player: None,
        emit_trail: true,
        salvage: true,
        lifetime: None,
        color_lerp: None,
        sprite: Some(Sprite { index: SALVAGE_SPRITE, color: white() }),
        scene: Some(GameMode::Playing),
    }
}

/// Spawns one salvage (see `salvage_entity`) and a pink-to-black burst of 1000 ms where it appears.
pub fn spawn_salvage_at(world: &mut World, px: u32, py: u32, vx: u32, vy: u32)
    requires
        old(world).wf(),
        px < 1024,
        py < 768,
        vx < 20,
        vy < 20,
    ensures
        final(world).wf(),
        final(world)@ == old(world)@.push(Some(salvage_entity(px as int, py as int, vx as int, vy as int)))
            + burst(
            salvage_entity(px as int, py as int, vx as int, vy as int).transform->Some_0,
            Color { r: 255, g: 20, b: 148, a: 255 },
            black(),
            SALVAGE_BURST_LIFETIME,
        ),
{
    let t = Transform::from_xyz((px as i64 - 512) * 33000, (py as i64 - 384) * 33000, 33000);
    let e = Entity {
        transform: Some(t),
        velocity: Some(Velocity { x: (vx as i64 - 10) * 200, y: (vy as i64 - 10) * 200 }),
        bounds: Some(BoundingBox2D::new(BOX_SIDE, BOX_SIDE)),
        attractor: None,
        player: None,
        emit_trail: true,
        salvage: true,
        lifetime: None,
        color_lerp: None,
        sprite: Some(Sprite { index: SALVAGE_SPRITE, color: Color::white() }),
        scene: Some(GameMode::Playing),
    };
    world.spawn(e);
    spawn_particle_burst(world, &t, Color::pink(), Color::black(), SALVAGE_BURST_LIFETIME);
}

/// The logical actions of one player during a tick.
#[derive(Clone, Copy, Debug, PartialEq, Eq, Structural)]
pub struct PlayerControl {
    pub rotate_left: bool,
    pub rotate_right: bool,
    pub thrust: bool,
}

/// Rotation after turning two degrees counter-clockwise for "left", then two degrees
/// clockwise for "right".
pub open spec fn turned(r: u32, c: PlayerControl) -> u32 {
    let a = if c.rotate_left { (r + 2) % 360 } else { r as int };
    if c.rotate_right { ((a + 358) % 360) as u32 } else { a as u32 }
}

/// Velocity after one thrust along the ship's nose (its local y axis at rotation `rot`):
/// a tenth of a pixel per frame, after which the speed is capped.
pub open spec fn thrusted(v: Velocity, rot: u32) -> Velocity {
    capped(
        Velocity {
            x: saturate(v.x + trunc_div(-sine_milli(rot), 10), VEL_LIMIT as int) as i64,
            y: saturate(v.y + trunc_div(cosine_milli(rot), 10), VEL_LIMIT as int) as i64,
        },
    )
}

/// A slot after its player, if any, follows the controls for its id.
pub open spec fn steered(o: Option<Entity>, controls: Seq<PlayerControl>) -> Option<Entity> {
    match o {
        Some(e) => match (e.player, e.transform, e.velocity) {
            (Some(p), Some(t), Some(v)) => if p.id < controls.len() {
                let c = controls[p.id as int];
                let rot = turned(t.rotation, c);
                Some(
                    Entity {
                        transform: Some(Transform { rotation: rot, ..t }),
                        velocity: Some(if c.thrust { thrusted(v, rot) } else { v }),
                        ..e
                    },
                )
            } else {
                o
            },
            _ => o,
        },
        None => None,
    }
}

fn tenth(v: i64) -> (r: i64)
    requires
        -1000 <= v <= 1000,
    ensures
        r == trunc_div(v as int, 10),
        -100 <= r <= 100,
{
    if v >= 0 {
        v / 10
    } else {
        -((-v) / 10)
    }
}

fn steer_ship(e: Entity, t: Transform, v: Velocity, c: PlayerControl) -> (r: Entity)
    requires
        e.wf(),
        e.transform == Some(t),
        e.velocity == Some(v),
    ensures
        r == (Entity {
            transform: Some(Transform { rotation: turned(t.rotation, c), ..t }),
            velocity: Some(if c.thrust { thrusted(v, turned(t.rotation, c)) } else { v }),
            ..e
        }),
        r.wf(),
{
    let mut rot = t.rotation;
    if c.rotate_left {
        rot = (rot + 2) % 360;
    }
    if c.rotate_right {
        rot = (rot + 358) % 360;
    }
    let nv = if c.thrust {
        let dx = tenth(-sine(rot));
        let dy = tenth(cosine(rot));
        let raw = Velocity {
            x: saturate_i128(v.x as i128 + dx as i128, VEL_LIMIT),
            y: saturate_i128(v.y as i128 + dy as i128, VEL_LIMIT),
        };
        cap_speed(&raw)
    } else {
        v
    };
    Entity { transform: Some(Transform { rotation: rot, ..t }), velocity: Some(nv), ..e }
}

/// Turns and thrusts each player as its controls (indexed by player id) ask.
pub fn player_control(world: &mut World, controls: &Vec<PlayerControl>)
    requires
        old(world).wf(),
    ensures
        final(world).wf(),
        final(world)@.len() == old(world)@.len(),
        forall|i: int| 0 <= i < old(world)@.len() ==> #[trigger] final(world)@[i] == steered(old(world)@[i], controls@),
{
    let n = world.slots.len();
    let mut i: usize = 0;
    while i < n
        invariant
            n == old(world)@.len(),
            0 <= i <= n,
            world.wf(),
            world@.len() == n,
            forall|j: int| 0 <= j < i ==> #[trigger] world@[j] == steered(old(world)@[j], controls@),
            forall|j: int| i <= j < n ==> #[trigger] world@[j] == old(world)@[j],
        decreases n - i,
    {
        if let Some(e) = world.slots[i] {
            if let (Some(p), Some(t), Some(v)) = (e.player, e.transform, e.velocity) {
                if p.id < controls.len() {
                    let ne = steer_ship(e, t, v, controls[p.id]);
                    proof {
                        lemma_replace_keeps_wf(world@, i as int, ne);
                    }
                    world.slots[i] = Some(ne);
                }
            }
        }
        i = i + 1;
    }
}

} // verus!
