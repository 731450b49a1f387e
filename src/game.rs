use vstd::prelude::*;
use crate::physics::{Transform, Velocity, Attractor};
use crate::collision::BoundingBox2D;
use crate::particles::Color;
use crate::world::{Entity, World, Sprite, Player, player_id, in_scene, remove_matching_elements};
use crate::mode::{GameMode, ModeEvent, Transition, transition_for, next_transition};
use crate::timer::{Timer, ticked};
use crate::random::RandomNumbers;
use crate::text::{summary_message, score_summary};
use crate::gameplay::{
    Scores, PlayerControl, BOX_SIDE, SALVAGE_BURST_LIFETIME, white, black, player_control, emit_trails,
    bounce, black_hole, spawn_salvage_at, collect_salvage, steered, trail_particles, bounced, absorbed,
    salvage_entity, burst, collected, pickup_bursts, pickups_for, scorers, add_capped,
};
use crate::passes::{
    apply_velocity, velocity_attractor_2d, particle_lifetimes, particle_color_lerp, clamp_positions, moved,
    gravitated, attractor_positions, aged, recolored, kept_in_field,
};

verus! {

/// Interval of the trail timer, in milliseconds.
pub const TRAIL_INTERVAL: u64 = 10;

/// Interval of the salvage timer, in milliseconds.
pub const SALVAGE_INTERVAL: u64 = 2000;

/// Resources that live exactly as long as one round of play.
pub struct Session {
    pub scores: Scores,
    pub particle_timer: Timer,
    pub salvage_timer: Timer,
}

impl Session {
    pub open spec fn wf(&self) -> bool {
        self.scores@.len() == 2 && self.particle_timer.wf() && self.salvage_timer.wf()
    }

    /// Scores at zero and both timers at zero elapsed.
    pub open spec fn is_fresh(&self) -> bool {
        &&& self.scores@ == seq![0u32, 0u32]
        &&& self.particle_timer == (Timer {
            elapsed: 0,
            duration: TRAIL_INTERVAL,
            repeating: true,
            finished: false,
            times_finished: 0,
        })
        &&& self.salvage_timer == (Timer {
            elapsed: 0,
            duration: SALVAGE_INTERVAL,
            repeating: true,
            finished: false,
            times_finished: 0,
        })
    }
}

/// The message carried from a finished round to the game-over screen.
pub struct GameOverResource {
    pub message: String,
}

/// No live entity belongs to `scene`.
pub open spec fn scene_empty(s: Seq<Option<Entity>>, scene: GameMode) -> bool {
    forall|i: int| 0 <= i < s.len() ==> !in_scene(#[trigger] s[i], scene)
}

/// A ship of the play scene.
pub open spec fn ship(id: usize, x: int, vy: int) -> Entity {
    Entity {
        transform: Some(Transform { x: x as i64, y: 33000, z: 0, rotation: 0 }),
        velocity: Some(Velocity { x: 0, y: vy as i64 }),
        bounds: Some(BoundingBox2D { width: BOX_SIDE, height: BOX_SIDE }),
        attractor: None,
        player: Some(Player { id }),
        emit_trail: true,
        salvage: false,
        lifetime: None,
        color_lerp: None,
        sprite: Some(Sprite { index: id, color: white() }),
        scene: Some(GameMode::Playing),
    }
}

/// The gravity well at the origin.
pub open spec fn well() -> Entity {
    Entity {
        transform: Some(Transform { x: 0, y: 0, z: 0, rotation: 0 }),
        velocity: None,
        bounds: Some(BoundingBox2D { width: BOX_SIDE, height: BOX_SIDE }),
        attractor: Some(Attractor { max_velocity: 3000 }),
        player: None,
        emit_trail: false,
        salvage: false,
        lifetime: None,
        color_lerp: None,
        sprite: Some(Sprite { index: 3, color: white() }),
        scene: Some(GameMode::Playing),
    }
}

/// What entering the play scene creates: player 0 at (300, 1) pixels drifting up at two
/// pixels per frame, player 1 at (-300, 1) drifting down, and the well at the origin.
pub open spec fn play_scene() -> Seq<Option<Entity>> {
    seq![Some(ship(0, 9900000, 2000)), Some(ship(1, -9900000, -2000)), Some(well())]
}

/// Builds the play scene and a fresh session.
pub fn setup_play_game(world: &mut World) -> (s: Session)
    requires
        old(world).wf(),
        forall|i: int| 0 <= i < old(world)@.len() ==> (#[trigger] player_id(old(world)@[i])).is_none(),
    ensures
        final(world).wf(),
        final(world)@ == old(world)@ + play_scene(),
        s.wf(),
        s.is_fresh(),
{
    let mut e0 = Entity::empty();
    e0.transform = Some(Transform::from_xyz(9900000, 33000, 0));
    e0.velocity = Some(Velocity { x: 0, y: 2000 });
    e0.bounds = Some(BoundingBox2D::new(BOX_SIDE, BOX_SIDE));
    e0.player = Some(Player { id: 0 });
    e0.emit_trail = true;
    e0.sprite = Some(Sprite { index: 0, color: Color::white() });
    e0.scene = Some(GameMode::Playing);
    let mut e1 = e0;
    e1.transform = Some(Transform::from_xyz(-9900000, 33000, 0));
    e1.velocity = Some(Velocity { x: 0, y: -2000 });
    e1.player = Some(Player { id: 1 });
    e1.sprite = Some(Sprite { index: 1, color: Color::white() });
    let mut hole = Entity::empty();
    hole.transform = Some(Transform::from_xyz(0, 0, 0));
    hole.bounds = Some(BoundingBox2D::new(BOX_SIDE, BOX_SIDE));
    hole.attractor = Some(Attractor { max_velocity: 3000 });
    hole.sprite = Some(Sprite { index: 3, color: Color::white() });
    hole.scene = Some(GameMode::Playing);
    let ghost w0 = world@;
    let r0 = world.spawn_player(e0);
    let ghost w1 = world@;
    assert(w1 == w0.push(Some(e0))) by {
        if r0.is_none() {
            let j = choose|j: int| 0 <= j < w0.len() && #[trigger] player_id(w0[j]) == Some(0usize);
            assert(player_id(w0[j]).is_none());
        }
    }
    let r1 = world.spawn_player(e1);
    assert(world@ == w1.push(Some(e1))) by {
        if r1.is_none() {
            let j = choose|j: int| 0 <= j < w1.len() && #[trigger] player_id(w1[j]) == Some(1usize);
            if j < w0.len() {
                assert(w1[j] == w0[j]);
                assert(player_id(w0[j]).is_none());
            }
        }
    }
    world.spawn(hole);
    assert(world@ =~= w0 + play_scene());
    Session {
        scores: Scores::new(),
        particle_timer: Timer::new(TRAIL_INTERVAL, true),
        salvage_timer: Timer::new(SALVAGE_INTERVAL, true),
    }
}

/// Players among `s`.
pub open spec fn player_count(s: Seq<Option<Entity>>) -> nat
    decreases s.len(),
{
    if s.len() == 0 {
        0
    } else {
        player_count(s.drop_last()) + if player_id(s.last()).is_some() { 1nat } else { 0nat }
    }
}

fn count_players(world: &World) -> (n: usize)
    requires
        world.wf(),
    ensures
        n == player_count(world@),
{
    let mut n: usize = 0;
    let mut i: usize = 0;
    while i < world.slots.len()
        invariant
            0 <= i <= world@.len(),
            n == player_count(world@.take(i as int)),
            n <= i,
        decreases world@.len() - i,
    {
        assert(world@.take(i + 1).drop_last() =~= world@.take(i as int));
        if let Some(e) = world.slots[i] {
            if e.player.is_some() {
                n = n + 1;
            }
        }
        i = i + 1;
    }
    assert(world@.take(world@.len() as int) =~= world@);
    n
}

proof fn lemma_no_players(s: Seq<Option<Entity>>)
    requires
        crate::world::slots_wf(s),
        scene_empty(s, GameMode::Playing),
    ensures
        forall|i: int| 0 <= i < s.len() ==> (#[trigger] player_id(s[i])).is_none(),
{
    assert forall|i: int| 0 <= i < s.len() implies (#[trigger] player_id(s[i])).is_none() by {
        assert(!in_scene(s[i], GameMode::Playing));
        if s[i].is_some() {
            assert(s[i]->Some_0.wf());
        }
    }
}

/// `after` keeps every entity of `before` but those of `scene`, which are gone; entities
/// created since follow them.
pub open spec fn cleaned_up(before: Seq<Option<Entity>>, after: Seq<Option<Entity>>, scene: GameMode) -> bool {
    &&& after.len() >= before.len()
    &&& forall|i: int|
        0 <= i < before.len() ==> #[trigger] after[i] == (if in_scene(before[i], scene) {
            None
        } else {
            before[i]
        })
}

/// A backdrop entity for a menu-like scene.
pub open spec fn backdrop(index: usize, scene: GameMode) -> Entity {
    Entity {
        transform: None,
        velocity: None,
        bounds: None,
        attractor: None,
        player: None,
        emit_trail: false,
        salvage: false,
        lifetime: None,
        color_lerp: None,
        sprite: Some(Sprite { index, color: white() }),
        scene: Some(scene),
    }
}

fn make_backdrop(index: usize, scene: GameMode) -> (e: Entity)
    ensures
        e == backdrop(index, scene),
        e.wf(),
{
    let mut e = Entity::empty();
    e.sprite = Some(Sprite { index, color: Color::white() });
    e.scene = Some(scene);
    e
}

/// Builds the loading scene: its message backdrop.
pub fn setup_loading(world: &mut World)
    requires
        old(world).wf(),
    ensures
        final(world).wf(),
        final(world)@ == old(world)@.push(Some(backdrop(0, GameMode::Loading))),
{
    world.spawn(make_backdrop(0, GameMode::Loading));
}

/// Builds the main menu scene: its backdrop.
pub fn setup_main_menu(world: &mut World)
    requires
        old(world).wf(),
    ensures
        final(world).wf(),
        final(world)@ == old(world)@.push(Some(backdrop(0, GameMode::MainMenu))),
{
    world.spawn(make_backdrop(0, GameMode::MainMenu));
}

/// Builds the game-over scene: its backdrop; the message travels in `GameOverResource`.
pub fn setup_game_over(world: &mut World)
    requires
        old(world).wf(),
    ensures
        final(world).wf(),
        final(world)@ == old(world)@.push(Some(backdrop(1, GameMode::GameOver))),
{
    world.spawn(make_backdrop(1, GameMode::GameOver));
}

/// Tears down the Loading scene: every entity that belongs to it is destroyed.
pub fn exit_loading(world: &mut World)
    requires
        old(world).wf(),
    ensures
        final(world).wf(),
        final(world)@.len() == old(world)@.len(),
        forall|i: int|
            0 <= i < old(world)@.len() ==> #[trigger] final(world)@[i] == (if in_scene(old(world)@[i], GameMode::Loading) {
                None
            } else {
                old(world)@[i]
            }),
{
    remove_matching_elements(world, GameMode::Loading);
}

/// Tears down the MainMenu scene: every entity that belongs to it is destroyed.
pub fn exit_main_menu(world: &mut World)
    requires
        old(world).wf(),
    ensures
        final(world).wf(),
        final(world)@.len() == old(world)@.len(),
        forall|i: int|
            0 <= i < old(world)@.len() ==> #[trigger] final(world)@[i] == (if in_scene(old(world)@[i], GameMode::MainMenu) {
                None
            } else {
                old(world)@[i]
            }),
{
    remove_matching_elements(world, GameMode::MainMenu);
}

/// Tears down the Playing scene: every entity that belongs to it is destroyed.
pub fn exit_play_game(world: &mut World)
    requires
        old(world).wf(),
    ensures
        final(world).wf(),
        final(world)@.len() == old(world)@.len(),
        forall|i: int|
            0 <= i < old(world)@.len() ==> #[trigger] final(world)@[i] == (if in_scene(old(world)@[i], GameMode::Playing) {
                None
            } else {
                old(world)@[i]
            }),
{
    remove_matching_elements(world, GameMode::Playing);
}

/// Tears down the GameOver scene: every entity that belongs to it is destroyed.
pub fn exit_game_over(world: &mut World)
    requires
        old(world).wf(),
    ensures
        final(world).wf(),
        final(world)@.len() == old(world)@.len(),
        forall|i: int|
            0 <= i < old(world)@.len() ==> #[trigger] final(world)@[i] == (if in_scene(old(world)@[i], GameMode::GameOver) {
                None
            } else {
                old(world)@[i]
            }),
{
    remove_matching_elements(world, GameMode::GameOver);
}

/// Four draws that place a new salvage (see `salvage_entity`).
#[derive(Clone, Copy, Debug, PartialEq, Eq, Structural)]
pub struct SalvageDraw {
    pub px: u32,
    pub py: u32,
    pub vx: u32,
    pub vy: u32,
}

impl SalvageDraw {
    pub open spec fn wf(&self) -> bool {
        self.px < 1024 && self.py < 768 && self.vx < 20 && self.vy < 20
    }
}

/// Controls, velocity, attraction, particle aging and particle color, slot by slot.
pub open spec fn motion(s0: Seq<Option<Entity>>, elapsed: int, controls: Seq<PlayerControl>) -> Seq<Option<Entity>> {
    let s1 = Seq::new(s0.len(), |i: int| steered(s0[i], controls));
    let s2 = Seq::new(s1.len(), |i: int| moved(s1[i], elapsed));
    let s3 = Seq::new(s2.len(), |i: int| gravitated(s2[i], attractor_positions(s2), elapsed));
    let s4 = Seq::new(s3.len(), |i: int| aged(s3[i], elapsed));
    Seq::new(s4.len(), |i: int| recolored(s4[i]))
}

/// Trails (when the trail timer fires), bounce and absorption.
pub open spec fn encounters(s5: Seq<Option<Entity>>, trail_fires: bool) -> Seq<Option<Entity>> {
    let s6 = if trail_fires { s5 + trail_particles(s5) } else { s5 };
    let s7 = bounced(s6);
    Seq::new(s7.len(), |i: int| if absorbed(s7, i) { None } else { s7[i] })
}

/// New salvage placed by `draw` (when the salvage timer fires), then the boundary clamp
/// of everything that moved or was created at or after slot `first_new`.
pub open spec fn arrivals(s8: Seq<Option<Entity>>, salvage_fires: bool, draw: SalvageDraw, first_new: int) -> Seq<Option<Entity>> {
    let salvage = salvage_entity(draw.px as int, draw.py as int, draw.vx as int, draw.vy as int);
    let s9 = if salvage_fires {
        s8.push(Some(salvage)) + burst(
            salvage.transform->Some_0,
            Color { r: 255, g: 20, b: 148, a: 255 },
            black(),
            SALVAGE_BURST_LIFETIME,
        )
    } else {
        s8
    };
    Seq::new(s9.len(), |i: int| kept_in_field(s9[i], i, first_new))
}

/// The store after the rules of one tick of play, up to and including the boundary
/// clamp, in their fixed order; `draw` places the salvage if the salvage timer fires.
pub open spec fn ruled(
    s0: Seq<Option<Entity>>,
    particle_timer: Timer,
    salvage_timer: Timer,
    elapsed: int,
    controls: Seq<PlayerControl>,
    draw: SalvageDraw,
) -> Seq<Option<Entity>> {
    arrivals(
        encounters(motion(s0, elapsed, controls), ticked(particle_timer, elapsed).finished),
        ticked(salvage_timer, elapsed).times_finished > 0,
        draw,
        s0.len() as int,
    )
}

fn motion_stage(world: &mut World, elapsed: u32, controls: &Vec<PlayerControl>)
    requires
        old(world).wf(),
    ensures
        final(world).wf(),
        final(world)@ == motion(old(world)@, elapsed as int, controls@),
{
    let ghost s0 = world@;
    player_control(world, controls);
    let ghost s1 = world@;
    assert(s1 =~= Seq::new(s0.len(), |i: int| steered(s0[i], controls@)));
    apply_velocity(world, elapsed);
    let ghost s2 = world@;
    assert(s2 =~= Seq::new(s1.len(), |i: int| moved(s1[i], elapsed as int)));
    velocity_attractor_2d(world, elapsed);
    let ghost s3 = world@;
    assert(s3 =~= Seq::new(s2.len(), |i: int| gravitated(s2[i], attractor_positions(s2), elapsed as int)));
    particle_lifetimes(world, elapsed);
    let ghost s4 = world@;
    assert(s4 =~= Seq::new(s3.len(), |i: int| aged(s3[i], elapsed as int)));
    particle_color_lerp(world);
    assert(world@ =~= Seq::new(s4.len(), |i: int| recolored(s4[i])));
}

fn encounter_stage(world: &mut World, trail_fires: bool)
    requires
        old(world).wf(),
    ensures
        final(world).wf(),
        final(world)@ == encounters(old(world)@, trail_fires),
{
    if trail_fires {
        emit_trails(world);
    }
    bounce(world);
    let ghost s7 = world@;
    black_hole(world);
    assert(world@ =~= Seq::new(s7.len(), |i: int| if absorbed(s7, i) { None } else { s7[i] }));
}

fn arrival_stage(world: &mut World, salvage_fires: bool, draw: SalvageDraw, first_new: usize)
    requires
        old(world).wf(),
        draw.wf(),
    ensures
        final(world).wf(),
        final(world)@ == arrivals(old(world)@, salvage_fires, draw, first_new as int),
{
    if salvage_fires {
        spawn_salvage_at(world, draw.px, draw.py, draw.vx, draw.vy);
    }
    let ghost s9 = world@;
    clamp_positions(world, first_new);
    assert(world@ =~= Seq::new(s9.len(), |i: int| kept_in_field(s9[i], i, first_new as int)));
}

/// The store after salvage collection.
pub open spec fn after_collection(s: Seq<Option<Entity>>) -> Seq<Option<Entity>> {
    Seq::new(s.len(), |i: int| if collected(s, i) { None } else { s[i] }) + pickup_bursts(
        s,
        scorers(s).len() as int,
    )
}

/// The scores after salvage collection in `s`.
pub open spec fn scores_after(s: Seq<Option<Entity>>, scores: Seq<u32>) -> Seq<u32> {
    seq![
        add_capped(scores[0] as int, pickups_for(s, scorers(s).len() as int, 0) as int) as u32,
        add_capped(scores[1] as int, pickups_for(s, scorers(s).len() as int, 1) as int) as u32,
    ]
}

/// `g1` is `g0` after one tick of play over `elapsed` milliseconds with the given
/// controls, `draw` placing the salvage if one appears: the rules in order, then salvage
/// collection, then the end condition.
pub open spec fn played(g0: Game, g1: Game, elapsed: int, controls: Seq<PlayerControl>, draw: SalvageDraw) -> bool {
    let session = g0.session->Some_0;
    let s = ruled(g0.world@, session.particle_timer, session.salvage_timer, elapsed, controls, draw);
    let world = after_collection(s);
    let scores = scores_after(s, session.scores@);
    if player_count(world) < 2 {
        &&& g1.mode == GameMode::GameOver
        &&& g1.session.is_none()
        &&& g1.game_over.is_some()
        &&& g1.game_over->Some_0.message@ == score_summary(scores)
        &&& cleaned_up(world, g1.world@, GameMode::Playing)
    } else {
        &&& g1.mode == GameMode::Playing
        &&& g1.world@ == world
        &&& g1.session.is_some()
        &&& g1.session->Some_0.scores@ == scores
        &&& g1.session->Some_0.particle_timer == ticked(session.particle_timer, elapsed)
        &&& g1.session->Some_0.salvage_timer == ticked(session.salvage_timer, elapsed)
    }
}

/// The mode controller: the active mode, the entity store and the resources of the
/// active mode.
pub struct Game {
    pub mode: GameMode,
    pub world: World,
    pub session: Option<Session>,
    pub game_over: Option<GameOverResource>,
}

impl Game {
    /// A session exists exactly while playing, and no play entity outlives play.
    pub open spec fn wf(&self) -> bool {
        &&& self.world.wf()
        &&& (self.mode == GameMode::Playing <==> self.session.is_some())
        &&& (self.session matches Some(s) ==> s.wf())
        &&& (self.mode != GameMode::Playing ==> scene_empty(self.world@, GameMode::Playing))
    }

    /// Starts in the loading mode, with its scene built.
    pub fn new() -> (g: Game)
        ensures
            g.wf(),
            g.mode == GameMode::Loading,
            g.world@ == seq![Some(backdrop(0, GameMode::Loading))],
            g.game_over.is_none(),
    {
        let mut world = World::new();
        setup_loading(&mut world);
        Game { mode: GameMode::Loading, world, session: None, game_over: None }
    }

    /// Leaves the current mode, destroying its entities and resources, then enters `next`.
    pub fn switch_to(&mut self, next: GameMode)
        requires
            old(self).wf(),
            next != old(self).mode,
        ensures
            final(self).wf(),
            final(self).mode == next,
            final(self).game_over == old(self).game_over,
            final(self).world@.len() >= old(self).world@.len(),
            forall|i: int|
                0 <= i < old(self).world@.len() ==> #[trigger] final(self).world@[i] == (if in_scene(
                    old(self).world@[i],
                    old(self).mode,
                ) {
                    None
                } else {
                    old(self).world@[i]
                }),
            next == GameMode::Playing ==> final(self).session.is_some() && final(self).session->Some_0.is_fresh(),
            next == GameMode::Playing ==> final(self).world@.subrange(
                old(self).world@.len() as int,
                final(self).world@.len() as int,
            ) == play_scene(),
    {
        let ghost w0 = self.world@;
        match self.mode {
            GameMode::Loading => exit_loading(&mut self.world),
            GameMode::MainMenu => exit_main_menu(&mut self.world),
            GameMode::Playing => exit_play_game(&mut self.world),
            GameMode::GameOver => exit_game_over(&mut self.world),
        }
        let ghost w1 = self.world@;
        if self.mode == GameMode::Playing {
            self.session = None;
        }
        assert(scene_empty(self.world@, GameMode::Playing));
        self.mode = next;
        match next {
            GameMode::Loading => setup_loading(&mut self.world),
            GameMode::MainMenu => setup_main_menu(&mut self.world),
            GameMode::GameOver => setup_game_over(&mut self.world),
            GameMode::Playing => {
                proof {
                    lemma_no_players(self.world@);
                }
                let s = setup_play_game(&mut self.world);
                assert(self.world@.subrange(w1.len() as int, self.world@.len() as int) =~= play_scene());
                self.session = Some(s);
            },
        }
        assert forall|i: int| 0 <= i < w0.len() implies #[trigger] self.world@[i] == (if in_scene(w0[i], old(self).mode) {
            None
        } else {
            w0[i]
        }) by {
            assert(self.world@[i] == w1[i]);
        }
    }

    /// Answers a mode event; returns whether the process should end.
    pub fn handle(&mut self, event: ModeEvent) -> (quit: bool)
        requires
            old(self).wf(),
        ensures
            final(self).wf(),
            quit == (transition_for(old(self).mode, event) == Transition::Exit),
            final(self).game_over == old(self).game_over,
            final(self).mode == (match transition_for(old(self).mode, event) {
                Transition::Switch(m) => m,
                _ => old(self).mode,
            }),
            !(transition_for(old(self).mode, event) matches Transition::Switch(_)) ==> final(self).world@
                == old(self).world@,
            transition_for(old(self).mode, event) matches Transition::Switch(_) ==> cleaned_up(
                old(self).world@,
                final(self).world@,
                old(self).mode,
            ),
            transition_for(old(self).mode, event) == Transition::Switch(GameMode::Playing)
                ==> final(self).session.is_some() && final(self).session->Some_0.is_fresh(),
    {
        match next_transition(self.mode, event) {
            Transition::Exit => true,
            Transition::Stay => false,
            Transition::Switch(m) => {
                self.switch_to(m);
                false
            },
        }
    }

    /// Loading mode, each tick: moves on to the main menu once every asset is loaded.
    pub fn run_loading(&mut self, all_loaded: bool)
        requires
            old(self).wf(),
            old(self).mode == GameMode::Loading,
        ensures
            final(self).wf(),
            final(self).mode == (if all_loaded { GameMode::MainMenu } else { GameMode::Loading }),
    {
        if all_loaded {
            self.handle(ModeEvent::AssetsLoaded);
        }
    }

    /// Main menu, each tick: "start" begins a round; returns whether "quit" was given.
    pub fn run_main_menu(&mut self, start: bool, quit: bool) -> (exit: bool)
        requires
            old(self).wf(),
            old(self).mode == GameMode::MainMenu,
        ensures
            final(self).wf(),
            exit == quit,
            final(self).mode == (if start { GameMode::Playing } else { GameMode::MainMenu }),
            start ==> final(self).session.is_some() && final(self).session->Some_0.is_fresh(),
    {
        if start {
            self.handle(ModeEvent::Start);
        }
        quit
    }

    /// Game over, each tick: "confirm" returns to the main menu; returns whether "quit"
    /// was given.
    pub fn run_game_over(&mut self, confirm: bool, quit: bool) -> (exit: bool)
        requires
            old(self).wf(),
            old(self).mode == GameMode::GameOver,
        ensures
            final(self).wf(),
            exit == quit,
            final(self).mode == (if confirm { GameMode::MainMenu } else { GameMode::GameOver }),
    {
        if confirm {
            self.handle(ModeEvent::Confirm);
        }
        quit
    }

    /// The end condition: with fewer than two players left, the round's scores become
    /// the game-over message and the controller moves to game over.
    pub fn end_game(&mut self)
        requires
            old(self).wf(),
            old(self).mode == GameMode::Playing,
        ensures
            final(self).wf(),
            player_count(old(self).world@) < 2 ==> final(self).mode == GameMode::GameOver
                && final(self).game_over.is_some() && final(self).game_over->Some_0.message@ == score_summary(
                old(self).session->Some_0.scores@,
            ) && cleaned_up(old(self).world@, final(self).world@, GameMode::Playing),
            player_count(old(self).world@) >= 2 ==> final(self).mode == GameMode::Playing
                && final(self).world@ == old(self).world@ && final(self).session == old(self).session,
    {
        let remaining = count_players(&self.world);
        if remaining < 2 {
            let message = match &self.session {
                Some(s) => summary_message(&s.scores.points),
                None => String::new(),
            };
            self.game_over = Some(GameOverResource { message });
            self.handle(ModeEvent::GameEnded);
        }
    }

    /// One tick of play, in order: controls, velocity, attraction, particle aging and
    /// color, trails, bounce, absorption, salvage spawn (placed by `draw`), boundary
    /// clamp, salvage collection and the end condition.
    pub fn play_tick(&mut self, elapsed: u32, controls: &Vec<PlayerControl>, draw: SalvageDraw)
        requires
            old(self).wf(),
            old(self).mode == GameMode::Playing,
            draw.wf(),
        ensures
            final(self).wf(),
            played(*old(self), *final(self), elapsed as int, controls@, draw),
    {
        let ghost s0 = self.world@;
        let first_new = self.world.len();
        let mut session = self.session.take().unwrap();
        let ghost pt = session.particle_timer;
        let ghost st = session.salvage_timer;
        let ghost sc = session.scores@;
        motion_stage(&mut self.world, elapsed, controls);
        session.particle_timer.tick(elapsed);
        encounter_stage(&mut self.world, session.particle_timer.finished);
        session.salvage_timer.tick(elapsed);
        let fires = session.salvage_timer.just_finished();
        arrival_stage(&mut self.world, fires, draw, first_new);
        let ghost s10 = self.world@;
        assert(s10 == ruled(s0, pt, st, elapsed as int, controls@, draw));
        collect_salvage(&mut self.world, &mut session.scores);
        assert(self.world@ =~= after_collection(s10));
        assert(session.scores@ =~= scores_after(s10, sc));
        self.session = Some(session);
        self.end_game();
    }

    /// One tick of play; when the salvage timer fires, the random source places the new
    /// salvage. Returns the draws used (all zero when the timer does not fire).
    pub fn run_play_game(&mut self, elapsed: u32, controls: &Vec<PlayerControl>, rng: &RandomNumbers) -> (draw: SalvageDraw)
        requires
            old(self).wf(),
            old(self).mode == GameMode::Playing,
        ensures
            final(self).wf(),
            draw.wf(),
            played(*old(self), *final(self), elapsed as int, controls@, draw),
    {
        let mut probe = match &self.session {
            Some(s) => s.salvage_timer,
            None => Timer::new(SALVAGE_INTERVAL, true),
        };
        probe.tick(elapsed);
        let draw = if probe.just_finished() {
            SalvageDraw {
                px: rng.range(0, 1024),
                py: rng.range(0, 768),
                vx: rng.range(0, 20),
                vy: rng.range(0, 20),
            }
        } else {
            SalvageDraw { px: 0, py: 0, vx: 0, vy: 0 }
        };
        self.play_tick(elapsed, controls, draw);
        draw
    }
}

} // verus!
