use ramp_ball::platforms::LifecycleTag;
use ramp_ball::player::Player;
use ramp_ball::player::PlayerState;
use ramp_ball::session::GameState;
use ramp_ball::session::GameWorld;
use ramp_ball::spikes::Spikes;

const SPIKE_ID: u64 = 42;

fn fresh_world() -> GameWorld {
    GameWorld::new(SPIKE_ID, 1280, 800)
}

#[test]
fn a_fresh_world_sits_in_the_main_menu() {
    let w = fresh_world();
    assert_eq!(w.state, GameState::MainMenu);
    assert_eq!(w.platforms.platforms.len(), 2);
    assert_eq!(w.session.state, PlayerState::Alive);
    assert_eq!(w.session.distance.0, 0);
    assert_eq!(w.player, Some(Player { x: 0, y: 0 }));
    assert_eq!(w.spikes.x, -1280);
    assert_eq!(w.spikes.vel_x, 0);
}

#[test]
fn nothing_moves_outside_active_play() {
    let mut w = fresh_world();
    w.tick((500, 100), &vec![1], &Vec::new(), &Vec::new());
    assert_eq!(w.state, GameState::MainMenu);
    assert_eq!(w.spikes.x, -1280);
    assert_eq!(w.session.distance.0, 0);
    assert_eq!(w.player, Some(Player { x: 0, y: 0 }));
}

#[test]
fn the_menu_press_starts_a_session() {
    let mut w = fresh_world();
    w.handle_main_menu_pressed(&vec![5]);
    assert_eq!(w.state, GameState::Playing);
    assert_eq!(w.session.distance.0, 0);
    assert_eq!(w.session.active_touch, Some(5));
    assert_eq!(w.session.gravity_scale, 10);
    assert_eq!(w.spikes.vel_x, 50);
}

#[test]
fn the_wall_chases_during_play() {
    let mut w = fresh_world();
    w.handle_main_menu_pressed(&Vec::new());
    w.tick((0, 0), &Vec::new(), &Vec::new(), &Vec::new());
    assert_eq!(w.spikes.x, -1230);
    w.tick((0, 0), &Vec::new(), &Vec::new(), &Vec::new());
    assert_eq!(w.spikes.x, -1180);
}

#[test]
fn play_tracks_distance_and_camera() {
    let mut w = fresh_world();
    w.handle_main_menu_pressed(&Vec::new());
    w.tick((1234, 0), &Vec::new(), &Vec::new(), &Vec::new());
    assert_eq!(w.session.distance.0, 12);
    assert_eq!(w.camera.x, 1234);
    assert_eq!(w.player, Some(Player { x: 1234, y: 0 }));
}

#[test]
fn touching_the_wall_despawns_the_player() {
    let mut w = fresh_world();
    w.handle_main_menu_pressed(&Vec::new());
    w.tick((0, 0), &Vec::new(), &Vec::new(), &vec![SPIKE_ID]);
    assert_eq!(w.session.state, PlayerState::Dead);
    assert_eq!(w.player, None);
    assert_eq!(w.state, GameState::Playing, "death does not leave active play");
}

#[test]
fn falling_out_despawns_the_player() {
    let mut w = fresh_world();
    w.handle_main_menu_pressed(&Vec::new());
    w.tick((0, -426), &Vec::new(), &Vec::new(), &Vec::new());
    assert_eq!(w.session.state, PlayerState::Dead);
    assert_eq!(w.player, None);
}

#[test]
fn after_death_the_session_is_frozen_but_platforms_keep_settling() {
    let mut w = fresh_world();
    w.handle_main_menu_pressed(&Vec::new());
    // Push a platform into sinking, then die.
    w.tick((1300, 0), &Vec::new(), &Vec::new(), &Vec::new());
    assert_eq!(w.platforms.platforms.len(), 3);
    w.tick((1300, -10_000), &Vec::new(), &Vec::new(), &Vec::new());
    assert_eq!(w.session.state, PlayerState::Dead);
    let distance = w.session.distance.0;
    // Dead ticks: distance frozen, platforms still sink away and settle.
    for _ in 0..5 {
        w.tick((99_999, 0), &Vec::new(), &Vec::new(), &Vec::new());
    }
    assert_eq!(w.session.distance.0, distance);
    assert_eq!(w.session.state, PlayerState::Dead);
    assert_eq!(w.player, None);
    assert!(w.platforms.platforms.len() <= 2);
    assert!(w
        .platforms
        .platforms
        .iter()
        .all(|p| !matches!(p.tag, LifecycleTag::Sinking)));
}

#[test]
fn continue_returns_to_a_consistent_main_menu() {
    let mut w = fresh_world();
    w.handle_main_menu_pressed(&Vec::new());
    w.tick((1300, 0), &Vec::new(), &Vec::new(), &Vec::new());
    w.tick((1300, -10_000), &Vec::new(), &Vec::new(), &Vec::new());
    assert_eq!(w.session.state, PlayerState::Dead);
    w.handle_continue_button_pressed();
    assert_eq!(w.state, GameState::MainMenu);
    assert_eq!(w.session.state, PlayerState::Alive);
    assert_eq!(w.session.distance.0, 0);
    assert_eq!(w.platforms.platforms.len(), 2);
    assert_eq!(w.player, Some(Player { x: 0, y: 0 }));
    assert_eq!(w.spikes.x, -1280);
    assert_eq!(w.spikes.vel_x, 0);
}

#[test]
fn spawned_wall_is_sized_to_the_window() {
    let s = Spikes::spawn_spikes(SPIKE_ID, 1280, 500);
    assert_eq!(s.x, -1280);
    assert_eq!(s.vel_x, 0);
    assert_eq!(s.spike_height, 20);
    assert_eq!(s.spike_width, 40);
}

#[test]
fn wall_teeth_stack_bottom_to_top() {
    let s = Spikes::spawn_spikes(SPIKE_ID, 1280, 500);
    let teeth = s.tooth_offsets();
    assert_eq!(teeth.len(), 25);
    // Doubled coordinates: horizontal offset 2 * (w / 2 - spike_width).
    assert_eq!(teeth[0], (1280 - 80, -500));
    assert_eq!(teeth[1].1, 40 - 500);
    assert_eq!(teeth[24].1, 24 * 40 - 500);
}

#[test]
fn wall_starts_and_resets() {
    let mut s = Spikes::spawn_spikes(SPIKE_ID, 1280, 500);
    s.begin_moving_spikes();
    assert_eq!(s.vel_x, 50);
    s.x = 300;
    s.reset_spikes(1280);
    assert_eq!(s.x, -1280);
    assert_eq!(s.vel_x, 0);
}
