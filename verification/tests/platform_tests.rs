use ramp_ball::collider::CollisionShape;
use ramp_ball::collider::PlanarVertex;
use ramp_ball::platforms::LifecycleTag;
use ramp_ball::platforms::Platform;
use ramp_ball::platforms::PlatformManager;
use ramp_ball::tessellate::StrokeMesh;
use ramp_ball::tessellate::Tri;

/// A platform whose collider's bounding box has its right edge at
/// `x + max_x`, with no real silhouette behind it.
fn stub_platform(x: i64, y: i64, max_x: i64, tag: LifecycleTag) -> Platform {
    let shape = CollisionShape {
        vertices: vec![PlanarVertex { x: 0, y: 0 }, PlanarVertex { x: max_x, y: 0 }],
        triangles: vec![Tri { a: 0, b: 1, c: 0 }],
    };
    Platform {
        x,
        y,
        vel_y: 0,
        tag,
        newly_sinking: false,
        mesh: StrokeMesh { vertices: Vec::new(), triangles: Vec::new() },
        collider: Some(shape),
    }
}

#[test]
fn player_close_behind_edge_does_not_sink() {
    // Player at x = 0, right edge at 10: 0 - 10 is not past the 50 margin.
    let mut m = PlatformManager {
        platforms: vec![stub_platform(0, -100, 10, LifecycleTag::Idle)],
    };
    m.sink_passed_platforms(0);
    assert_eq!(m.platforms[0].tag, LifecycleTag::Idle);
    assert!(!m.platforms[0].newly_sinking);
    assert_eq!(m.platforms[0].vel_y, 0);
}

#[test]
fn player_far_past_edge_sinks_the_platform() {
    // Player at x = 1000, right edge at 10: 990 past the margin of 50.
    let mut m = PlatformManager {
        platforms: vec![stub_platform(0, -100, 10, LifecycleTag::Idle)],
    };
    m.sink_passed_platforms(1000);
    assert_eq!(m.platforms[0].tag, LifecycleTag::Sinking);
    assert!(m.platforms[0].newly_sinking);
    assert_eq!(m.platforms[0].vel_y, -500);
}

#[test]
fn exactly_at_the_margin_does_not_sink() {
    // Right edge at 10, player at 60: 60 - 10 == 50, not strictly past it.
    let mut m = PlatformManager {
        platforms: vec![stub_platform(0, -100, 10, LifecycleTag::Idle)],
    };
    m.sink_passed_platforms(60);
    assert_eq!(m.platforms[0].tag, LifecycleTag::Idle);
    m.sink_passed_platforms(61);
    assert_eq!(m.platforms[0].tag, LifecycleTag::Sinking);
}

#[test]
fn platform_without_collider_never_sinks() {
    let mut p = stub_platform(0, -100, 10, LifecycleTag::Idle);
    p.collider = None;
    let mut m = PlatformManager { platforms: vec![p] };
    m.sink_passed_platforms(1_000_000);
    assert_eq!(m.platforms[0].tag, LifecycleTag::Idle);
}

#[test]
fn sink_edge_spawns_exactly_one_replacement_once() {
    let mut m = PlatformManager {
        platforms: vec![stub_platform(0, -100, 10, LifecycleTag::Idle)],
    };
    // First tick: the platform sinks and exactly one riser appears.
    m.tick(1000, 800);
    assert_eq!(m.platforms.len(), 2);
    assert_eq!(m.platforms[0].tag, LifecycleTag::Sinking);
    assert!(!m.platforms[0].newly_sinking, "the edge latch is consumed");
    assert_eq!(m.platforms[1].tag, LifecycleTag::Rising { target_y: -100 });
    assert_eq!(m.platforms[1].x, 2800);
    assert_eq!(m.platforms[1].y, -900);
    assert_eq!(m.platforms[1].vel_y, 500);
    assert!(m.platforms[1].collider.is_some());
    // Second tick, trigger still holding: no second replacement.
    m.tick(1000, 800);
    assert_eq!(m.platforms.len(), 2);
    assert_eq!(m.platforms[0].tag, LifecycleTag::Sinking);
    assert_eq!(m.platforms[0].y, -600);
    assert_eq!(m.platforms[1].y, -400);
    // Third tick: the sunk platform is gone, the riser has settled.
    m.tick(1000, 800);
    assert_eq!(m.platforms.len(), 1);
    assert_eq!(m.platforms[0].tag, LifecycleTag::Idle);
    assert_eq!(m.platforms[0].vel_y, 0);
    assert_eq!(m.platforms[0].y, 100);
}

#[test]
fn live_platform_count_is_preserved_across_a_sink() {
    let mut m = PlatformManager {
        platforms: vec![
            stub_platform(0, -100, 10, LifecycleTag::Idle),
            stub_platform(1400, -100, 10, LifecycleTag::Idle),
        ],
    };
    let live = |m: &PlatformManager| {
        m.platforms
            .iter()
            .filter(|p| !matches!(p.tag, LifecycleTag::Sinking))
            .count()
    };
    assert_eq!(live(&m), 2);
    // The player has passed the first platform only.
    m.tick(600, 800);
    assert_eq!(live(&m), 2);
    assert!(m.platforms.len() <= 3);
    m.tick(600, 800);
    assert_eq!(live(&m), 2);
    assert!(m.platforms.len() <= 3);
    m.tick(600, 800);
    assert_eq!(live(&m), 2);
    assert!(m.platforms.len() <= 3);
}

#[test]
fn rising_platform_settles_exactly_once() {
    let mut p = stub_platform(0, -5, 10, LifecycleTag::Rising { target_y: 0 });
    p.vel_y = 500;
    p.collider = None;
    let mut m = PlatformManager { platforms: vec![p] };
    m.tick(0, 800);
    // The riser moved past its target and settled: velocity zeroed, idle.
    assert_eq!(m.platforms[0].y, 495);
    assert_eq!(m.platforms[0].vel_y, 0);
    assert_eq!(m.platforms[0].tag, LifecycleTag::Idle);
    // Later ticks leave it at rest.
    m.tick(0, 800);
    assert_eq!(m.platforms[0].y, 495);
    assert_eq!(m.platforms[0].vel_y, 0);
    assert_eq!(m.platforms[0].tag, LifecycleTag::Idle);
}

#[test]
fn initial_seeding_spawns_two_idle_platforms() {
    let mut m = PlatformManager { platforms: Vec::new() };
    m.spawn_initial_platforms();
    assert_eq!(m.platforms.len(), 2);
    assert_eq!(m.platforms[0].x, 0);
    assert_eq!(m.platforms[1].x, 1400);
    for p in &m.platforms {
        assert_eq!(p.y, -100);
        assert_eq!(p.tag, LifecycleTag::Idle);
        assert_eq!(p.vel_y, 0);
        assert!(p.collider.is_some());
        assert!(p.mesh.triangles.len() > 0);
    }
}

#[test]
fn despawn_empties_the_manager() {
    let mut m = PlatformManager { platforms: Vec::new() };
    m.spawn_initial_platforms();
    m.despawn_platforms();
    assert_eq!(m.platforms.len(), 0);
}

#[test]
fn sunk_platform_is_removed_only_below_the_viewport() {
    let mut p = stub_platform(0, -799, 10, LifecycleTag::Sinking);
    p.vel_y = 0;
    let mut m = PlatformManager { platforms: vec![p] };
    m.remove_sunk_platforms(800);
    assert_eq!(m.platforms.len(), 1, "at -799 it is still inside");
    m.platforms[0].y = -801;
    m.remove_sunk_platforms(800);
    assert_eq!(m.platforms.len(), 0, "below -800 it is gone");
}
