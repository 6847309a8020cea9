use ramp_ball::player::camera_follow_player;
use ramp_ball::player::Camera;
use ramp_ball::player::PlayerSession;
use ramp_ball::player::PlayerState;

#[test]
fn spawned_player_is_alive_at_distance_zero() {
    let s = PlayerSession::spawn_player();
    assert_eq!(s.state, PlayerState::Alive);
    assert_eq!(s.active_touch, None);
    assert_eq!(s.gravity_scale, 0);
    assert_eq!(s.distance.0, 0);
}

#[test]
fn enable_gravity_claims_the_first_held_contact() {
    let mut s = PlayerSession::spawn_player();
    s.enable_player_gravity(&vec![7, 9]);
    assert_eq!(s.active_touch, Some(7));
    assert_eq!(s.gravity_scale, 10);
}

#[test]
fn enable_gravity_floats_without_contacts() {
    let mut s = PlayerSession::spawn_player();
    s.enable_player_gravity(&Vec::new());
    assert_eq!(s.active_touch, None);
    assert_eq!(s.gravity_scale, 1);
}

#[test]
fn gravity_claims_first_pressed_contact() {
    let mut s = PlayerSession::spawn_player();
    s.gravity_control_system(&vec![3, 9], &Vec::new());
    assert_eq!(s.active_touch, Some(3));
    assert_eq!(s.gravity_scale, 10);
}

#[test]
fn gravity_ignores_other_contacts_while_one_is_tracked() {
    let mut s = PlayerSession::spawn_player();
    s.gravity_control_system(&vec![3], &Vec::new());
    // A second contact appears; the tracked one stays claimed.
    s.gravity_control_system(&vec![8], &Vec::new());
    assert_eq!(s.active_touch, Some(3));
    assert_eq!(s.gravity_scale, 10);
    // Releasing an unrelated contact changes nothing.
    s.gravity_control_system(&Vec::new(), &vec![8]);
    assert_eq!(s.active_touch, Some(3));
    assert_eq!(s.gravity_scale, 10);
}

#[test]
fn releasing_the_tracked_contact_restores_float() {
    let mut s = PlayerSession::spawn_player();
    s.gravity_control_system(&vec![3], &Vec::new());
    s.gravity_control_system(&Vec::new(), &vec![3]);
    assert_eq!(s.active_touch, None);
    assert_eq!(s.gravity_scale, 1);
}

#[test]
fn colliding_with_the_hazard_kills() {
    let mut s = PlayerSession::spawn_player();
    s.handle_player_collisions(&vec![5, 8], &vec![8]);
    assert_eq!(s.state, PlayerState::Dead);
}

#[test]
fn colliding_with_other_entities_does_not_kill() {
    let mut s = PlayerSession::spawn_player();
    s.handle_player_collisions(&vec![5, 8], &vec![11]);
    assert_eq!(s.state, PlayerState::Alive);
}

#[test]
fn fall_death_is_strict_at_the_boundary() {
    // With a 800-tall viewport and radius 50, the boundary height is
    // -(800 / 2) - (50 / 2) = -425. One unit below it kills; at the
    // boundary itself, it does not.
    let mut s = PlayerSession::spawn_player();
    s.handle_player_fall(-426, 800);
    assert_eq!(s.state, PlayerState::Dead);

    let mut s2 = PlayerSession::spawn_player();
    s2.handle_player_fall(-425, 800);
    assert_eq!(s2.state, PlayerState::Alive);
}

#[test]
fn travel_distance_is_x_over_one_hundred() {
    let mut s = PlayerSession::spawn_player();
    s.update_travel_distance(1234);
    assert_eq!(s.distance.0, 12);
}

#[test]
fn travel_distance_never_decreases() {
    let mut s = PlayerSession::spawn_player();
    s.update_travel_distance(1234);
    s.update_travel_distance(500);
    assert_eq!(s.distance.0, 12);
    s.update_travel_distance(-5000);
    assert_eq!(s.distance.0, 12);
    s.update_travel_distance(10_000);
    assert_eq!(s.distance.0, 100);
}

#[test]
fn travel_distance_resets_to_zero() {
    let mut s = PlayerSession::spawn_player();
    s.update_travel_distance(1234);
    s.reset_travel_distance();
    assert_eq!(s.distance.0, 0);
}

#[test]
fn dead_player_is_never_updated_again() {
    let mut s = PlayerSession::spawn_player();
    s.update_travel_distance(500);
    s.handle_player_fall(-10_000, 800);
    assert_eq!(s.state, PlayerState::Dead);
    let before = s;
    s.player_tick(99_999, 0, 800, &vec![1], &Vec::new(), &vec![42], &vec![42]);
    assert_eq!(s, before);
}

#[test]
fn player_tick_runs_every_system_in_order() {
    let mut s = PlayerSession::spawn_player();
    s.player_tick(1234, 0, 800, &vec![3], &Vec::new(), &Vec::new(), &vec![42]);
    assert_eq!(s.state, PlayerState::Alive);
    assert_eq!(s.active_touch, Some(3));
    assert_eq!(s.gravity_scale, 10);
    assert_eq!(s.distance.0, 12);
}

#[test]
fn player_tick_detects_death_by_fall() {
    let mut s = PlayerSession::spawn_player();
    s.player_tick(0, -426, 800, &Vec::new(), &Vec::new(), &Vec::new(), &vec![42]);
    assert_eq!(s.state, PlayerState::Dead);
}

#[test]
fn camera_snaps_to_the_player() {
    let mut cam = Camera { x: 0 };
    camera_follow_player(&mut cam, 777);
    assert_eq!(cam.x, 777);
}
