use gravity_well::gameplay::{BURST_SIZE, PARTICLE_SPRITE};
use gravity_well::physics::{attraction_step, advance, isqrt, POS_LIMIT};
use gravity_well::trig::{cosine, sine};
use gravity_well::{
    apply_velocity, black_hole, bounce, clamp_positions, collect_salvage, emit_trails,
    find_one_collision, particle_color_lerp, particle_lifetimes, player_control,
    remove_matching_elements, spawn_particle_burst, spawn_salvage_at, velocity_attractor_2d,
    Attractor, BoundingBox2D, Color, Entity, GameMode, ParticleColorLerp, ParticleLifetime, Player,
    PlayerControl, Scores, Sprite, Transform, Velocity, World,
};

const PX: i64 = 33000;

fn at(x_px: i64, y_px: i64) -> Transform {
    Transform::from_xyz(x_px * PX, y_px * PX, 0)
}

fn boxed(t: Transform) -> Entity {
    let mut e = Entity::empty();
    e.transform = Some(t);
    e.bounds = Some(BoundingBox2D::new(24 * PX, 24 * PX));
    e.scene = Some(GameMode::Playing);
    e
}

fn ship(id: usize, t: Transform, v: Velocity) -> Entity {
    let mut e = boxed(t);
    e.player = Some(Player { id });
    e.velocity = Some(v);
    e.emit_trail = true;
    e
}

fn particle(elapsed: u32, max: u32, start: Color, end: Color) -> Entity {
    let mut e = Entity::empty();
    e.transform = Some(at(0, 0));
    e.velocity = Some(Velocity { x: 0, y: 0 });
    e.lifetime = Some(ParticleLifetime { elapsed, max });
    e.color_lerp = Some(ParticleColorLerp { start, end });
    e.sprite = Some(Sprite { index: PARTICLE_SPRITE, color: Color::white() });
    e.scene = Some(GameMode::Playing);
    e
}

fn live(w: &World) -> usize {
    let mut n = 0;
    for i in 0..w.len() {
        if w.get(i).is_some() {
            n += 1;
        }
    }
    n
}

#[test]
fn overlapping_rectangles_collide() {
    let a = BoundingBox2D::new(10, 10);
    let b = BoundingBox2D::new(10, 10);
    assert!(a.collides_with(&Transform::from_xyz(0, 0, 0), &b, &Transform::from_xyz(5, 5, 0)));
    assert!(a.collides_with(&Transform::from_xyz(0, 0, 0), &b, &Transform::from_xyz(9, -9, 0)));
    assert!(a.collides_with(&Transform::from_xyz(0, 0, 0), &b, &Transform::from_xyz(0, 0, 0)));
}

#[test]
fn separate_rectangles_do_not_collide() {
    let a = BoundingBox2D::new(10, 10);
    let b = BoundingBox2D::new(10, 10);
    assert!(!a.collides_with(&Transform::from_xyz(0, 0, 0), &b, &Transform::from_xyz(50, 0, 0)));
    assert!(!a.collides_with(&Transform::from_xyz(0, 0, 0), &b, &Transform::from_xyz(0, -30, 0)));
}

#[test]
fn touching_edges_do_not_collide() {
    let a = BoundingBox2D::new(10, 10);
    let b = BoundingBox2D::new(10, 10);
    assert!(!a.collides_with(&Transform::from_xyz(0, 0, 0), &b, &Transform::from_xyz(10, 0, 0)));
    assert!(!a.collides_with(&Transform::from_xyz(0, 0, 0), &b, &Transform::from_xyz(0, 10, 0)));
    assert!(!a.collides_with(&Transform::from_xyz(0, 0, 0), &b, &Transform::from_xyz(-10, 0, 0)));
    assert!(!a.collides_with(&Transform::from_xyz(0, 0, 0), &b, &Transform::from_xyz(10, 10, 0)));
}

#[test]
fn first_collision_wins() {
    let single = BoundingBox2D::new(10, 10);
    let b = BoundingBox2D::new(10, 10);
    let targets = vec![
        (7usize, Transform::from_xyz(100, 0, 0), b),
        (3usize, Transform::from_xyz(5, 0, 0), b),
        (9usize, Transform::from_xyz(0, 5, 0), b),
    ];
    assert_eq!(find_one_collision(&Transform::from_xyz(0, 0, 0), &single, &targets), Some(3));
    assert_eq!(find_one_collision(&Transform::from_xyz(500, 500, 0), &single, &targets), None);
    assert_eq!(find_one_collision(&Transform::from_xyz(0, 0, 0), &single, &[]), None);
}

#[test]
fn velocity_step_scales_with_elapsed_time() {
    let t = Transform::from_xyz(1000, -2000, 7);
    let v = Velocity { x: 2000, y: -300 };
    let r = advance(&t, &v, 33);
    assert_eq!(r, Transform { x: 1000 + 66000, y: -2000 - 9900, z: 7, rotation: 0 });
}

#[test]
fn velocity_integration_is_linear() {
    let mut once = World::new();
    let mut twice = World::new();
    let mut e = Entity::empty();
    e.transform = Some(Transform::from_xyz(12345, -678, 0));
    e.velocity = Some(Velocity { x: -1234, y: 4321 });
    once.spawn(e);
    twice.spawn(e);
    apply_velocity(&mut once, 40);
    apply_velocity(&mut twice, 20);
    apply_velocity(&mut twice, 20);
    assert_eq!(once.get(0), twice.get(0));
    assert_eq!(once.get(0).unwrap().transform.unwrap().x, 12345 - 1234 * 40);
}

#[test]
fn velocity_saturates_at_position_limit() {
    let t = Transform::from_xyz(POS_LIMIT - 1, 0, 0);
    let v = Velocity { x: 1000, y: 0 };
    assert_eq!(advance(&t, &v, 33).x, POS_LIMIT);
}

#[test]
fn integer_square_root() {
    assert_eq!(isqrt(0), 0);
    assert_eq!(isqrt(1), 1);
    assert_eq!(isqrt(15), 3);
    assert_eq!(isqrt(16), 4);
    assert_eq!(isqrt(98010000000000), 9900000);
}

#[test]
fn attraction_pulls_toward_the_well() {
    let well = Transform::from_xyz(0, 0, 0);
    let target = at(300, 0);
    let v = attraction_step(&well, &target, &Velocity { x: 0, y: 0 }, 33);
    assert_eq!(v, Velocity { x: -22, y: 0 });
}

#[test]
fn attraction_skips_zero_distance() {
    let well = Transform::from_xyz(0, 0, 0);
    let v = attraction_step(&well, &well, &Velocity { x: 5, y: 6 }, 33);
    assert_eq!(v, Velocity { x: 5, y: 6 });
}

#[test]
fn attraction_pass_updates_velocities() {
    let mut w = World::new();
    let mut hole = boxed(at(0, 0));
    hole.attractor = Some(Attractor { max_velocity: 3000 });
    w.spawn(hole);
    let mut rock = Entity::empty();
    rock.transform = Some(at(0, -300));
    rock.velocity = Some(Velocity { x: 100, y: 0 });
    w.spawn(rock);
    velocity_attractor_2d(&mut w, 33);
    assert_eq!(w.get(1).unwrap().velocity, Some(Velocity { x: 100, y: 22 }));
    assert_eq!(w.get(0).unwrap().velocity, None);
}

#[test]
fn particle_color_at_birth_and_death() {
    let start = Color::rgb(10, 200, 30);
    let end = Color::rgb(250, 0, 90);
    let mut w = World::new();
    w.spawn(particle(0, 2000, start, end));
    w.spawn(particle(2000, 2000, start, end));
    w.spawn(particle(1000, 2000, start, end));
    particle_color_lerp(&mut w);
    assert_eq!(w.get(0).unwrap().sprite.unwrap().color, start);
    assert_eq!(w.get(1).unwrap().sprite.unwrap().color, end);
    assert_eq!(w.get(2).unwrap().sprite.unwrap().color, Color::rgb(130, 100, 60));
}

#[test]
fn expired_particle_is_destroyed() {
    let mut w = World::new();
    w.spawn(particle(1990, 2000, Color::white(), Color::black()));
    w.spawn(particle(1000, 2000, Color::white(), Color::black()));
    w.spawn(particle(1967, 2000, Color::white(), Color::black()));
    particle_lifetimes(&mut w, 33);
    assert_eq!(w.get(0), None);
    assert_eq!(w.get(1).unwrap().lifetime, Some(ParticleLifetime { elapsed: 1033, max: 2000 }));
    assert_eq!(w.get(2).unwrap().lifetime, Some(ParticleLifetime { elapsed: 2000, max: 2000 }));
}

#[test]
fn clamp_to_right_and_top_edges() {
    let mut w = World::new();
    let mut e = Entity::empty();
    e.transform = Some(at(10000, -10000));
    e.velocity = Some(Velocity { x: 0, y: 0 });
    w.spawn(e);
    clamp_positions(&mut w, 0);
    let t = w.get(0).unwrap().transform.unwrap();
    assert_eq!(t.x, 512 * PX);
    assert_eq!(t.y, -384 * PX);
}

#[test]
fn clamp_skips_entities_that_did_not_move() {
    let mut w = World::new();
    let mut still = Entity::empty();
    still.transform = Some(at(-2000, 5000));
    w.spawn(still);
    w.spawn(still);
    clamp_positions(&mut w, 1);
    assert_eq!(w.get(0).unwrap().transform.unwrap(), at(-2000, 5000));
    assert_eq!(w.get(1).unwrap().transform.unwrap(), at(-512, 384));
}

#[test]
fn burst_spawns_a_ring() {
    let mut w = World::new();
    let pos = at(10, 20);
    spawn_particle_burst(&mut w, &pos, Color::cyan(), Color::blue(), 1000);
    assert_eq!(w.len(), BURST_SIZE as usize);
    let first = w.get(0).unwrap();
    assert_eq!(first.velocity, Some(Velocity { x: 1000, y: 0 }));
    assert_eq!(first.lifetime, Some(ParticleLifetime { elapsed: 0, max: 1000 }));
    assert_eq!(first.color_lerp, Some(ParticleColorLerp { start: Color::cyan(), end: Color::blue() }));
    assert_eq!(first.transform, Some(pos));
    assert_eq!(w.get(90).unwrap().velocity, Some(Velocity { x: 0, y: 1000 }));
    assert_eq!(w.get(180).unwrap().velocity, Some(Velocity { x: -1000, y: 0 }));
    assert_eq!(w.get(45).unwrap().velocity, Some(Velocity { x: 707, y: 707 }));
}

#[test]
fn sine_and_cosine_table() {
    assert_eq!(sine(30), 500);
    assert_eq!(sine(210), -500);
    assert_eq!(cosine(60), 500);
    assert_eq!(cosine(270), 0);
    assert_eq!(sine(359), -17);
}

#[test]
fn trails_follow_emitters() {
    let mut w = World::new();
    w.spawn_player(ship(0, at(5, 6), Velocity { x: 0, y: 0 }));
    w.spawn_player(ship(1, at(-5, 6), Velocity { x: 0, y: 0 }));
    let mut rock = boxed(at(1, 1));
    rock.emit_trail = true;
    w.spawn(rock);
    w.spawn(boxed(at(2, 2)));
    emit_trails(&mut w);
    assert_eq!(w.len(), 7);
    let lead = w.get(4).unwrap();
    assert_eq!(lead.color_lerp, Some(ParticleColorLerp { start: Color::yellow(), end: Color::black() }));
    assert_eq!(lead.transform, Some(at(5, 6)));
    assert_eq!(lead.velocity, Some(Velocity { x: 0, y: 0 }));
    assert_eq!(lead.lifetime, Some(ParticleLifetime { elapsed: 0, max: 2000 }));
    assert_eq!(w.get(5).unwrap().color_lerp.unwrap().start, Color::purple());
    assert_eq!(w.get(6).unwrap().color_lerp.unwrap().start, Color::white());
}

#[test]
fn players_bounce_apart() {
    let mut w = World::new();
    w.spawn_player(ship(0, at(10, 0), Velocity { x: 0, y: 0 }));
    w.spawn_player(ship(1, at(0, 0), Velocity { x: 0, y: 0 }));
    bounce(&mut w);
    assert_eq!(w.get(0).unwrap().velocity, Some(Velocity { x: 1000, y: 0 }));
    assert_eq!(w.get(1).unwrap().velocity, Some(Velocity { x: -1000, y: 0 }));
    assert_eq!(w.len(), 2 + 360);
    let p = w.get(2).unwrap();
    assert_eq!(p.color_lerp, Some(ParticleColorLerp { start: Color::cyan(), end: Color::blue() }));
    assert_eq!(p.transform, Some(at(10, 0)));
}

#[test]
fn distant_players_do_not_bounce() {
    let mut w = World::new();
    w.spawn_player(ship(0, at(100, 0), Velocity { x: 3, y: 4 }));
    w.spawn_player(ship(1, at(0, 0), Velocity { x: 5, y: 6 }));
    bounce(&mut w);
    assert_eq!(w.len(), 2);
    assert_eq!(w.get(0).unwrap().velocity, Some(Velocity { x: 3, y: 4 }));
}

#[test]
fn well_swallows_first_overlap() {
    let mut w = World::new();
    let mut hole = boxed(at(0, 0));
    hole.attractor = Some(Attractor { max_velocity: 3000 });
    w.spawn(hole);
    w.spawn(boxed(at(100, 100)));
    w.spawn(boxed(at(5, 5)));
    w.spawn(boxed(at(-5, -5)));
    black_hole(&mut w);
    assert!(w.get(0).is_some());
    assert!(w.get(1).is_some());
    assert_eq!(w.get(2), None);
    assert!(w.get(3).is_some());
}

#[test]
fn salvage_collection_scores_and_bursts() {
    let mut w = World::new();
    w.spawn_player(ship(1, at(0, 0), Velocity { x: 0, y: 0 }));
    let mut loot = boxed(at(0, 0));
    loot.salvage = true;
    w.spawn(loot);
    let mut scores = Scores::new();
    collect_salvage(&mut w, &mut scores);
    assert_eq!(w.get(1), None);
    assert_eq!(scores.points, vec![0, 1]);
    assert_eq!(w.len(), 2 + 360);
    let mut bursts = 0;
    for i in 2..w.len() {
        let p = w.get(i).unwrap();
        assert_eq!(p.color_lerp, Some(ParticleColorLerp { start: Color::green(), end: Color::yellow() }));
        assert_eq!(p.lifetime, Some(ParticleLifetime { elapsed: 0, max: 2000 }));
        bursts += 1;
    }
    assert_eq!(bursts, 360);
}

#[test]
fn no_salvage_no_score() {
    let mut w = World::new();
    w.spawn_player(ship(0, at(0, 0), Velocity { x: 0, y: 0 }));
    let mut loot = boxed(at(200, 0));
    loot.salvage = true;
    w.spawn(loot);
    let mut scores = Scores::new();
    collect_salvage(&mut w, &mut scores);
    assert!(w.get(1).is_some());
    assert_eq!(scores.points, vec![0, 0]);
    assert_eq!(w.len(), 2);
}

#[test]
fn salvage_spawn_from_draws() {
    let mut w = World::new();
    spawn_salvage_at(&mut w, 1023, 0, 0, 19);
    assert_eq!(w.len(), 1 + 360);
    let s = w.get(0).unwrap();
    assert_eq!(s.transform, Some(Transform::from_xyz(511 * PX, -384 * PX, PX)));
    assert_eq!(s.velocity, Some(Velocity { x: -2000, y: 1800 }));
    assert!(s.salvage && s.emit_trail);
    let b = w.get(1).unwrap();
    assert_eq!(b.color_lerp, Some(ParticleColorLerp { start: Color::pink(), end: Color::black() }));
    assert_eq!(b.lifetime, Some(ParticleLifetime { elapsed: 0, max: 1000 }));
}

#[test]
fn steering_turns_and_thrusts() {
    let mut w = World::new();
    w.spawn_player(ship(0, at(0, 0), Velocity { x: 0, y: 0 }));
    w.spawn_player(ship(1, at(50, 0), Velocity { x: 4990, y: 0 }));
    let controls = vec![
        PlayerControl { rotate_left: false, rotate_right: false, thrust: true },
        PlayerControl { rotate_left: true, rotate_right: false, thrust: true },
    ];
    player_control(&mut w, &controls);
    let lead = w.get(0).unwrap();
    assert_eq!(lead.velocity, Some(Velocity { x: 0, y: 100 }));
    let other = w.get(1).unwrap();
    assert_eq!(other.transform.unwrap().rotation, 2);
    let v = other.velocity.unwrap();
    assert!(v.x * v.x + v.y * v.y <= 5000 * 5000);
    assert!(v.x > 4900);
}

#[test]
fn steering_right_wraps_rotation() {
    let mut w = World::new();
    w.spawn_player(ship(0, at(0, 0), Velocity { x: 0, y: 0 }));
    let controls = vec![PlayerControl { rotate_left: false, rotate_right: true, thrust: false }];
    player_control(&mut w, &controls);
    assert_eq!(w.get(0).unwrap().transform.unwrap().rotation, 358);
    assert_eq!(w.get(0).unwrap().velocity, Some(Velocity { x: 0, y: 0 }));
}

#[test]
fn scene_cleanup_removes_only_its_entities() {
    let mut w = World::new();
    let mut menu = Entity::empty();
    menu.scene = Some(GameMode::MainMenu);
    w.spawn(menu);
    w.spawn(boxed(at(0, 0)));
    remove_matching_elements(&mut w, GameMode::Playing);
    assert!(w.get(0).is_some());
    assert_eq!(w.get(1), None);
    assert_eq!(live(&w), 1);
}

#[test]
fn second_player_with_same_id_is_refused() {
    let mut w = World::new();
    assert_eq!(w.spawn_player(ship(0, at(0, 0), Velocity { x: 0, y: 0 })), Some(0));
    assert_eq!(w.spawn_player(ship(0, at(9, 0), Velocity { x: 0, y: 0 })), None);
    assert_eq!(w.spawn_player(ship(1, at(9, 0), Velocity { x: 0, y: 0 })), Some(1));
    w.despawn(0);
    assert_eq!(w.get(0), None);
    assert_eq!(w.spawn_player(ship(0, at(1, 0), Velocity { x: 0, y: 0 })), Some(2));
}
