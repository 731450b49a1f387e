use gravity_well::game::TRAIL_INTERVAL;
use gravity_well::mode::next_transition;
use gravity_well::text::summary_message;
use gravity_well::{
    Game, GameMode, ModeEvent, PlayerControl, RandomNumbers, Timer, Transform, Transition,
};

fn idle() -> Vec<PlayerControl> {
    let c = PlayerControl { rotate_left: false, rotate_right: false, thrust: false };
    vec![c, c]
}

fn playing() -> Game {
    let mut g = Game::new();
    g.run_loading(true);
    g.run_main_menu(true, false);
    g
}

#[test]
fn transition_table() {
    assert_eq!(next_transition(GameMode::Loading, ModeEvent::AssetsLoaded), Transition::Switch(GameMode::MainMenu));
    assert_eq!(next_transition(GameMode::MainMenu, ModeEvent::Start), Transition::Switch(GameMode::Playing));
    assert_eq!(next_transition(GameMode::Playing, ModeEvent::GameEnded), Transition::Switch(GameMode::GameOver));
    assert_eq!(next_transition(GameMode::GameOver, ModeEvent::Confirm), Transition::Switch(GameMode::MainMenu));
    assert_eq!(next_transition(GameMode::Playing, ModeEvent::Quit), Transition::Exit);
    assert_eq!(next_transition(GameMode::Loading, ModeEvent::Start), Transition::Stay);
    assert_eq!(next_transition(GameMode::GameOver, ModeEvent::Start), Transition::Stay);
}

#[test]
fn loading_waits_for_assets() {
    let mut g = Game::new();
    g.run_loading(false);
    assert_eq!(g.mode, GameMode::Loading);
    g.run_loading(true);
    assert_eq!(g.mode, GameMode::MainMenu);
    assert_eq!(g.world.get(0), None);
}

#[test]
fn quit_is_reported() {
    let mut g = Game::new();
    g.run_loading(true);
    assert!(g.run_main_menu(false, true));
    assert_eq!(g.mode, GameMode::MainMenu);
    assert!(g.handle(ModeEvent::Quit));
}

#[test]
fn starting_builds_the_play_scene() {
    let g = playing();
    assert_eq!(g.mode, GameMode::Playing);
    let mut players = 0;
    let mut wells = 0;
    for i in 0..g.world.len() {
        if let Some(e) = g.world.get(i) {
            if e.player.is_some() {
                players += 1;
            }
            if e.attractor.is_some() {
                wells += 1;
            }
        }
    }
    assert_eq!(players, 2);
    assert_eq!(wells, 1);
    let s = g.session.as_ref().unwrap();
    assert_eq!(s.scores.points, vec![0, 0]);
}

#[test]
fn one_tick_keeps_playing() {
    let mut g = playing();
    let rng = RandomNumbers::new();
    g.run_play_game(33, &idle(), &rng);
    assert_eq!(g.mode, GameMode::Playing);
    assert!(g.world.len() > 5);
}

#[test]
fn swallowed_player_ends_the_game() {
    let mut g = playing();
    let rng = RandomNumbers::new();
    for i in 0..g.world.len() {
        if let Some(mut e) = g.world.get(i) {
            if e.player.map(|p| p.id) == Some(0) {
                e.transform = Some(Transform::from_xyz(0, 0, 0));
                g.world.slots[i] = Some(e);
            }
        }
    }
    g.run_play_game(33, &idle(), &rng);
    assert_eq!(g.mode, GameMode::GameOver);
    assert!(g.session.is_none());
    let message = &g.game_over.as_ref().unwrap().message;
    let lines: Vec<&str> = message.lines().collect();
    assert_eq!(lines, vec!["Player 1 scored 0 points.", "Player 2 scored 0 points."]);
    for i in 0..g.world.len() {
        if let Some(e) = g.world.get(i) {
            assert_ne!(e.scene, Some(GameMode::Playing));
        }
    }
}

#[test]
fn new_round_starts_fresh() {
    let mut g = playing();
    if let Some(s) = g.session.as_mut() {
        s.scores.points[0] = 4;
        s.scores.points[1] = 7;
        s.particle_timer.tick(7);
        s.salvage_timer.tick(1500);
    }
    g.game_over = None;
    assert!(!g.handle(ModeEvent::GameEnded));
    assert_eq!(g.mode, GameMode::GameOver);
    g.run_game_over(true, false);
    assert_eq!(g.mode, GameMode::MainMenu);
    g.run_main_menu(true, false);
    let s = g.session.as_ref().unwrap();
    assert_eq!(s.scores.points, vec![0, 0]);
    assert_eq!(s.particle_timer.elapsed, 0);
    assert_eq!(s.salvage_timer.elapsed, 0);
    assert_eq!(s.particle_timer.duration, TRAIL_INTERVAL);
}

#[test]
fn summary_lists_each_player() {
    let m = summary_message(&vec![3, 12]);
    assert_eq!(m, "Player 1 scored 3 points.\nPlayer 2 scored 12 points.\n");
    assert_eq!(summary_message(&vec![]), "");
}

#[test]
fn repeating_timer_carries_remainder() {
    let mut t = Timer::new(10, true);
    t.tick(33);
    assert!(t.finished);
    assert!(t.just_finished());
    assert_eq!(t.times_finished, 3);
    assert_eq!(t.elapsed, 3);
    t.tick(5);
    assert!(!t.finished);
    assert!(!t.just_finished());
    assert_eq!(t.elapsed, 8);
}

#[test]
fn one_shot_timer_stops() {
    let mut t = Timer::new(100, false);
    t.tick(150);
    assert!(t.just_finished());
    assert_eq!(t.elapsed, 100);
    t.tick(10);
    assert!(t.finished);
    assert!(!t.just_finished());
}

#[test]
fn random_range_stays_in_bounds() {
    let rng = RandomNumbers::new();
    for _ in 0..200 {
        let r = rng.range(5, 9);
        assert!((5..9).contains(&r));
    }
    assert_eq!(rng.range(3, 4), 3);
}

#[test]
fn salvage_appears_when_its_timer_fires() {
    let mut g = playing();
    let draw = gravity_well::game::SalvageDraw { px: 612, py: 484, vx: 10, vy: 10 };
    let before = g.world.len();
    g.play_tick(2000, &idle(), draw);
    assert_eq!(g.mode, GameMode::Playing);
    let mut salvage = Vec::new();
    for i in before..g.world.len() {
        if let Some(e) = g.world.get(i) {
            if e.salvage {
                salvage.push(e);
            }
        }
    }
    assert_eq!(salvage.len(), 1);
    assert_eq!(salvage[0].transform, Some(Transform::from_xyz(100 * 33000, 100 * 33000, 33000)));
    let s = g.session.as_ref().unwrap();
    assert_eq!(s.salvage_timer.elapsed, 0);
    assert!(s.salvage_timer.just_finished());
}

#[test]
fn no_salvage_before_its_timer_fires() {
    let mut g = playing();
    let draw = gravity_well::game::SalvageDraw { px: 612, py: 484, vx: 10, vy: 10 };
    g.play_tick(33, &idle(), draw);
    for i in 0..g.world.len() {
        if let Some(e) = g.world.get(i) {
            assert!(!e.salvage);
        }
    }
    let s = g.session.as_ref().unwrap();
    assert_eq!(s.salvage_timer.elapsed, 33);
    assert_eq!(s.particle_timer.elapsed, 3);
}

#[test]
fn random_tick_reports_draws_in_range() {
    let mut g = playing();
    let rng = RandomNumbers::new();
    let d = g.run_play_game(2000, &idle(), &rng);
    assert!(d.px < 1024 && d.py < 768 && d.vx < 20 && d.vy < 20);
    let quiet = g.run_play_game(10, &idle(), &rng);
    assert_eq!(quiet, gravity_well::game::SalvageDraw { px: 0, py: 0, vx: 0, vy: 0 });
}

#[test]
fn ships_drift_and_stay_in_the_field() {
    let mut g = playing();
    let draw = gravity_well::game::SalvageDraw { px: 0, py: 0, vx: 0, vy: 0 };
    for _ in 0..400 {
        g.play_tick(33, &idle(), draw);
        if g.mode != GameMode::Playing {
            break;
        }
        for i in 0..g.world.len() {
            if let Some(e) = g.world.get(i) {
                if let Some(t) = e.transform {
                    assert!(t.x.abs() <= 512 * 33000 && t.y.abs() <= 384 * 33000);
                }
            }
        }
    }
}

#[test]
fn end_game_keeps_playing_with_two_ships() {
    let mut g = playing();
    g.end_game();
    assert_eq!(g.mode, GameMode::Playing);
    assert!(g.game_over.is_none());
}
