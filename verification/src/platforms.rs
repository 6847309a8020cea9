//! Platform lifecycle manager: owns the set of live platforms and drives the
//! recycling state machine each simulation tick. A platform is `Idle` until
//! the player passes it, then `Sinking` until it falls out of the simulated
//! area; the moment it starts sinking, one replacement is synthesized far
//! ahead and below, `Rising` toward the sinking platform's height, where it
//! settles back to `Idle`. This keeps the platform count near a small
//! constant for arbitrarily long sessions.
//!
//! The sink edge is detected explicitly: a freshly sinking platform carries a
//! latch that the replacement pass consumes, so the trigger is edge-driven,
//! never level-driven.

use vstd::prelude::*;

use crate::collider::CollisionShape;
use crate::collider::collider_matches;
use crate::collider::create_trimesh_collider_from;
use crate::collider::seq_max_x;
use crate::tessellate::ControlPoint;
use crate::tessellate::MESH_VERTEX_LIMIT;
use crate::tessellate::StrokeMesh;
use crate::tessellate::control_points_ok;
use crate::tessellate::create_smooth_spline_mesh_from;
use crate::tessellate::curve_polyline;
use crate::tessellate::mesh_wf;
use crate::tessellate::polyline_len;
use crate::tessellate::pts_model;
use crate::tessellate::ribbon_matches;

verus! {

/// Lifecycle tag of a platform; exactly one holds at a time.
#[derive(Clone, Copy, Debug, PartialEq, Eq, Structural)]
pub enum LifecycleTag {
    Idle,
    Sinking,
    Rising { target_y: i64 },
}

/// One platform entity: its position, vertical velocity, lifecycle tag, the
/// edge latch raised the tick it starts sinking, and its geometry.
pub struct Platform {
    pub x: i64,
    pub y: i64,
    pub vel_y: i64,
    pub tag: LifecycleTag,
    pub newly_sinking: bool,
    pub mesh: StrokeMesh,
    pub collider: Option<CollisionShape>,
}

/// Downward speed of a sinking platform, world units per tick.
pub const SINK_SPEED: i64 = 500;

/// Upward speed of a rising replacement, world units per tick.
pub const RISE_SPEED: i64 = 500;

/// How far the player must be past a platform's right edge to sink it.
pub const SINK_MARGIN: i64 = 50;

/// Horizontal distance ahead of a sinking platform at which its replacement
/// appears.
pub const REPLACEMENT_X_OFFSET: i64 = 2800;

/// Horizontal spacing of the two initial platforms.
pub const INITIAL_PLATFORM_SPACING: i64 = 1400;

/// Resting height of the initial platforms.
pub const INITIAL_PLATFORM_Y: i64 = -100;

/// Largest magnitude the manager accepts for a platform position or the
/// player position; far beyond any reachable session, it only keeps the
/// tick arithmetic inside the machine integers.
pub const POS_LIMIT: i64 = 1_000_000_000_000;

/// Largest viewport height the manager accepts.
pub const WINDOW_LIMIT: i64 = 1_000_000;

/// A structurally sound platform: the sink latch only accompanies a sinking
/// tag, the velocity is one the lifecycle can set, and an attached collider
/// is nonempty with bounded vertices.
pub open spec fn wf_platform(p: Platform) -> bool {
    &&& p.newly_sinking ==> p.tag is Sinking
    &&& -1000 <= p.vel_y <= 1000
    &&& wf_platform_geometry(p.collider)
}

pub open spec fn wf_platforms(s: Seq<Platform>) -> bool {
    forall|i: int| 0 <= i < s.len() ==> wf_platform(#[trigger] s[i])
}

/// Positions this tick's arithmetic can take without overflow.
pub open spec fn bounded_platform(p: Platform) -> bool {
    &&& -POS_LIMIT <= p.x <= POS_LIMIT
    &&& -POS_LIMIT <= p.y <= POS_LIMIT
}

pub open spec fn bounded_platforms(s: Seq<Platform>) -> bool {
    forall|i: int| 0 <= i < s.len() ==> bounded_platform(#[trigger] s[i])
}

/// The looser bound that mid-tick positions respect: one tick of motion and
/// one replacement offset away from `POS_LIMIT` at most.
pub open spec fn slack_platform(p: Platform) -> bool {
    &&& -2 * POS_LIMIT <= p.x <= 2 * POS_LIMIT
    &&& -2 * POS_LIMIT <= p.y <= 2 * POS_LIMIT
}

pub open spec fn slack_platforms(s: Seq<Platform>) -> bool {
    forall|i: int| 0 <= i < s.len() ==> slack_platform(#[trigger] s[i])
}

/// The kinematic motion of one tick: velocity moves the platform.
pub open spec fn move_step(p: Platform) -> Platform {
    Platform { y: (p.y + p.vel_y) as i64, ..p }
}

/// Right edge of a platform's collider bounding box, in world coordinates.
pub open spec fn platform_right_edge(p: Platform) -> int {
    p.x + seq_max_x(p.collider->0.vertices@)
}

/// The player has passed this platform by more than the sink margin. Only a
/// platform that is not already sinking and has a collider can trigger.
pub open spec fn sink_trigger(p: Platform, player_x: int) -> bool {
    &&& !(p.tag is Sinking)
    &&& p.collider is Some
    &&& player_x - platform_right_edge(p) > SINK_MARGIN
}

/// The sink transition: a triggered platform starts sinking at the fixed
/// downward speed and raises the edge latch; anything else is untouched.
pub open spec fn sink_step(p: Platform, player_x: int) -> Platform {
    if sink_trigger(p, player_x) {
        Platform {
            vel_y: (-SINK_SPEED) as i64,
            tag: LifecycleTag::Sinking,
            newly_sinking: true,
            ..p
        }
    } else {
        p
    }
}

/// A sinking platform below the negative viewport height is gone.
pub open spec fn sunk(p: Platform, h: int) -> bool {
    p.tag is Sinking && p.y < -h
}

/// The settle transition: a rising platform at or above its target becomes
/// idle with zero velocity; anything else is untouched.
pub open spec fn stop_step(p: Platform) -> Platform {
    match p.tag {
        LifecycleTag::Rising { target_y } => if p.y >= target_y {
            Platform { vel_y: 0, tag: LifecycleTag::Idle, ..p }
        } else {
            p
        },
        _ => p,
    }
}

/// The platforms that survive the removal pass, in order.
pub open spec fn remove_sunk_seq(s: Seq<Platform>, h: int) -> Seq<Platform>
    decreases s.len(),
{
    if s.len() == 0 {
        Seq::empty()
    } else {
        let rest = remove_sunk_seq(s.drop_last(), h);
        if sunk(s.last(), h) {
            rest
        } else {
            rest.push(s.last())
        }
    }
}

/// The freshly sinking platforms, in order: those whose edge latch is up.
pub open spec fn latched_seq(s: Seq<Platform>) -> Seq<Platform>
    decreases s.len(),
{
    if s.len() == 0 {
        Seq::empty()
    } else {
        let rest = latched_seq(s.drop_last());
        if s.last().newly_sinking {
            rest.push(s.last())
        } else {
            rest
        }
    }
}

/// A platform with its edge latch lowered.
pub open spec fn clear_latch(p: Platform) -> Platform {
    Platform { newly_sinking: false, ..p }
}

/// The control points every platform silhouette uses.
pub open spec fn default_control_model() -> Seq<(int, int)> {
    seq![(0int, 0int), (200int, 50int), (600int, -100int), (1200int, 100int)]
}

/// The geometry every synthesized platform carries: a ribbon tessellated from
/// the default control points, and the collider derived from it one-to-one.
pub open spec fn default_geometry(mesh: StrokeMesh, collider: Option<CollisionShape>) -> bool {
    &&& ribbon_matches(curve_polyline(default_control_model()), mesh)
    &&& mesh_wf(mesh)
    &&& mesh.triangles@.len() > 0
    &&& collider is Some
    &&& collider_matches(mesh, collider->0)
}

/// The default control points as a value.
pub fn default_control_points() -> (v: Vec<ControlPoint>)
    ensures
        v@.len() == 4,
        pts_model(v@) == default_control_model(),
        control_points_ok(v@),
{
    let mut v: Vec<ControlPoint> = Vec::new();
    v.push(ControlPoint { x: 0, y: 0 });
    v.push(ControlPoint { x: 200, y: 50 });
    v.push(ControlPoint { x: 600, y: -100 });
    v.push(ControlPoint { x: 1200, y: 100 });
    proof {
        assert(pts_model(v@) =~= default_control_model());
    }
    v
}

/// Tessellates the default silhouette and derives its collider.
fn build_platform_geometry() -> (g: (StrokeMesh, Option<CollisionShape>))
    ensures
        default_geometry(g.0, g.1),
        wf_platform_geometry(g.1),
{
    let points = default_control_points();
    let mesh = create_smooth_spline_mesh_from(&points);
    assert(mesh.vertices@.len() == 2 * polyline_len(4));
    let collider = create_trimesh_collider_from(&mesh);
    (mesh, collider)
}

/// The collider half of `wf_platform`.
pub open spec fn wf_platform_geometry(collider: Option<CollisionShape>) -> bool {
    match collider {
        Some(c) => c.vertices@.len() > 0 && forall|i: int|
            0 <= i < c.vertices@.len() ==> -MESH_VERTEX_LIMIT <= (#[trigger] c.vertices@[i]).x
                <= MESH_VERTEX_LIMIT,
        None => true,
    }
}

/// An initial platform: idle and at rest at its seeded position.
pub open spec fn initial_platform(p: Platform, i: int) -> bool {
    &&& p.x == INITIAL_PLATFORM_SPACING * i
    &&& p.y == INITIAL_PLATFORM_Y
    &&& p.vel_y == 0
    &&& p.tag is Idle
    &&& !p.newly_sinking
    &&& default_geometry(p.mesh, p.collider)
}

/// The replacement synthesized for a freshly sinking platform `orig`: far
/// ahead of it, one viewport height below it, rising toward its height.
pub open spec fn is_replacement(orig: Platform, h: int, np: Platform) -> bool {
    &&& np.x as int == orig.x + REPLACEMENT_X_OFFSET
    &&& np.y as int == orig.y - h
    &&& np.vel_y == RISE_SPEED
    &&& np.tag == (LifecycleTag::Rising { target_y: orig.y })
    &&& !np.newly_sinking
    &&& default_geometry(np.mesh, np.collider)
}

/// The platforms after the kinematic step of one tick.
pub open spec fn moved_seq(s: Seq<Platform>) -> Seq<Platform> {
    s.map(|i: int, p: Platform| move_step(p))
}

/// The platforms after the sink pass of one tick.
pub open spec fn marked_seq(s: Seq<Platform>, player_x: int) -> Seq<Platform> {
    s.map(|i: int, p: Platform| sink_step(p, player_x))
}

/// The platforms that survive motion, sink detection and removal in one tick.
pub open spec fn kept_seq(s: Seq<Platform>, player_x: int, h: int) -> Seq<Platform> {
    remove_sunk_seq(marked_seq(moved_seq(s), player_x), h)
}

/// How one full tick relates the platform set before (`s`) to the set after
/// (`f`): the survivors, latches consumed and settled where due, followed by
/// exactly one rising replacement per freshly sinking platform, in order.
pub open spec fn tick_rel(s: Seq<Platform>, f: Seq<Platform>, player_x: int, h: int) -> bool {
    let kept = kept_seq(s, player_x, h);
    let born = latched_seq(kept);
    &&& f.len() == kept.len() + born.len()
    &&& forall|i: int| 0 <= i < kept.len() ==> #[trigger] f[i] == stop_step(clear_latch(kept[i]))
    &&& forall|j: int|
        0 <= j < born.len() ==> is_replacement(born[j], h, #[trigger] f[kept.len() + j])
}

/// Slack bounds survive the removal pass.
proof fn lemma_remove_sunk_slack(s: Seq<Platform>, h: int)
    requires
        slack_platforms(s),
    ensures
        slack_platforms(remove_sunk_seq(s, h)),
    decreases s.len(),
{
    if s.len() > 0 {
        assert(slack_platforms(s.drop_last())) by {
            assert(forall|i: int|
                0 <= i < s.len() - 1 ==> #[trigger] s.drop_last()[i] == s[i]);
        }
        lemma_remove_sunk_slack(s.drop_last(), h);
    }
}

/// A platform that is idle or rising: live terrain the player can use.
pub open spec fn alive(p: Platform) -> bool {
    p.tag is Idle || p.tag is Rising
}

/// Number of live platforms in a set.
pub open spec fn alive_count(s: Seq<Platform>) -> int
    decreases s.len(),
{
    if s.len() == 0 {
        0
    } else {
        alive_count(s.drop_last()) + if alive(s.last()) {
            1int
        } else {
            0int
        }
    }
}

/// Two sets whose platforms are pointwise equally alive hold equally many
/// live platforms.
proof fn lemma_alive_count_pointwise(s1: Seq<Platform>, s2: Seq<Platform>)
    requires
        s1.len() == s2.len(),
        forall|i: int| 0 <= i < s1.len() ==> (alive(#[trigger] s1[i]) <==> alive(s2[i])),
    ensures
        alive_count(s1) == alive_count(s2),
    decreases s1.len(),
{
    if s1.len() > 0 {
        assert(forall|i: int|
            0 <= i < s1.len() - 1 ==> #[trigger] s1.drop_last()[i] == s1[i]
                && s2.drop_last()[i] == s2[i]);
        lemma_alive_count_pointwise(s1.drop_last(), s2.drop_last());
        assert(alive(s1.last()) <==> alive(s2[s1.len() - 1]));
    }
}

/// Live platforms add up over concatenation.
proof fn lemma_alive_count_append(s: Seq<Platform>, t: Seq<Platform>)
    ensures
        alive_count(s + t) == alive_count(s) + alive_count(t),
    decreases t.len(),
{
    if t.len() == 0 {
        assert(s + t =~= s);
    } else {
        assert((s + t).drop_last() =~= s + t.drop_last());
        assert((s + t).last() == t.last());
        lemma_alive_count_append(s, t.drop_last());
    }
}

/// A set of only live platforms counts its whole length.
proof fn lemma_alive_count_all(s: Seq<Platform>)
    requires
        forall|i: int| 0 <= i < s.len() ==> alive(#[trigger] s[i]),
    ensures
        alive_count(s) == s.len(),
    decreases s.len(),
{
    if s.len() > 0 {
        assert(forall|i: int| 0 <= i < s.len() - 1 ==> #[trigger] s.drop_last()[i] == s[i]);
        lemma_alive_count_all(s.drop_last());
    }
}

/// Kinematic motion changes no lifecycle tag, so it keeps the live count.
proof fn lemma_alive_moved(s: Seq<Platform>)
    ensures
        alive_count(moved_seq(s)) == alive_count(s),
{
    assert(forall|i: int|
        0 <= i < s.len() ==> (alive(#[trigger] moved_seq(s)[i]) <==> alive(s[i])));
    lemma_alive_count_pointwise(moved_seq(s), s);
}

/// The sink pass converts live platforms into latched sinking ones, one
/// latch per lost live platform, and touches nothing else.
proof fn lemma_alive_marked(s: Seq<Platform>, x: int)
    requires
        forall|i: int| 0 <= i < s.len() ==> !(#[trigger] s[i]).newly_sinking,
    ensures
        alive_count(marked_seq(s, x)) + latched_seq(marked_seq(s, x)).len() == alive_count(s),
    decreases s.len(),
{
    let m = marked_seq(s, x);
    if s.len() == 0 {
        assert(m =~= Seq::<Platform>::empty());
    } else {
        assert(forall|i: int| 0 <= i < s.len() - 1 ==> #[trigger] s.drop_last()[i] == s[i]);
        lemma_alive_marked(s.drop_last(), x);
        assert(m.drop_last() =~= marked_seq(s.drop_last(), x));
        let p = s.last();
        let q = m.last();
        assert(q == sink_step(p, x));
        if sink_trigger(p, x) {
            assert(alive(p) && !alive(q) && q.newly_sinking);
        } else {
            assert(q == p && !q.newly_sinking);
        }
    }
}

/// The removal pass despawns only sinking, latch-free platforms when every
/// latched platform still sits at or above the cutoff; the live count and
/// the latched platforms are untouched.
proof fn lemma_remove_sunk_alive(s: Seq<Platform>, h: int)
    requires
        forall|i: int|
            0 <= i < s.len() ==> (#[trigger] s[i]).newly_sinking ==> s[i].y as int >= -h,
    ensures
        alive_count(remove_sunk_seq(s, h)) == alive_count(s),
        latched_seq(remove_sunk_seq(s, h)) == latched_seq(s),
    decreases s.len(),
{
    if s.len() > 0 {
        assert(forall|i: int| 0 <= i < s.len() - 1 ==> #[trigger] s.drop_last()[i] == s[i]);
        lemma_remove_sunk_alive(s.drop_last(), h);
        let p = s.last();
        let rest = remove_sunk_seq(s.drop_last(), h);
        if sunk(p, h) {
            assert(!alive(p) && !p.newly_sinking);
        } else {
            assert(rest.push(p).drop_last() =~= rest);
            assert(rest.push(p).last() == p);
            if p.newly_sinking {
                assert(latched_seq(rest.push(p)) == latched_seq(rest).push(p));
            }
        }
    }
}

/// A latch-free platform set stays latch-free through the removal pass.
pub proof fn lemma_remove_sunk_unlatched(s: Seq<Platform>, h: int)
    requires
        forall|i: int| 0 <= i < s.len() ==> !(#[trigger] s[i]).newly_sinking,
    ensures
        forall|i: int|
            0 <= i < remove_sunk_seq(s, h).len() ==> !(
            #[trigger] remove_sunk_seq(s, h)[i]).newly_sinking,
    decreases s.len(),
{
    if s.len() > 0 {
        assert(forall|i: int| 0 <= i < s.len() - 1 ==> #[trigger] s.drop_last()[i] == s[i]);
        lemma_remove_sunk_unlatched(s.drop_last(), h);
    }
}

/// Law: the sink transition is edge-triggered, never level-triggered. A
/// platform that is already sinking is left untouched by the sink pass, so
/// one sink edge raises exactly one latch, however many consecutive ticks
/// the trigger condition keeps holding.
pub proof fn lemma_sinking_never_retriggers(p: Platform, player_x: int)
    requires
        p.tag is Sinking,
    ensures
        sink_step(p, player_x) == p,
{
}

/// Law: with no latch raised beforehand, the platforms latched by the sink
/// pass are exactly those on which the trigger fired this tick.
pub proof fn lemma_sink_pass_latches_exactly_triggers(s: Seq<Platform>, player_x: int)
    requires
        forall|i: int| 0 <= i < s.len() ==> !(#[trigger] s[i]).newly_sinking,
    ensures
        forall|i: int|
            0 <= i < s.len() ==> ((#[trigger] marked_seq(s, player_x)[i]).newly_sinking
                <==> sink_trigger(s[i], player_x)),
{
}

/// Removal never grows the platform set.
proof fn lemma_remove_sunk_len(s: Seq<Platform>, h: int)
    ensures
        remove_sunk_seq(s, h).len() <= s.len(),
    decreases s.len(),
{
    if s.len() > 0 {
        lemma_remove_sunk_len(s.drop_last(), h);
    }
}

/// Law: the platform count stays bounded. A tick adds exactly one platform
/// per freshly sinking one and never otherwise grows the set, so the total
/// exceeds the previous count by at most the number of sink edges that
/// fired; with the usual single sink edge per tick, a two-platform steady
/// state peaks at three during a sink-rise overlap.
pub proof fn lemma_tick_count_bound(s: Seq<Platform>, f: Seq<Platform>, player_x: int, h: int)
    requires
        tick_rel(s, f, player_x, h),
    ensures
        f.len() == kept_seq(s, player_x, h).len() + latched_seq(kept_seq(s, player_x, h)).len(),
        f.len() <= s.len() + latched_seq(kept_seq(s, player_x, h)).len(),
{
    let marked = marked_seq(moved_seq(s), player_x);
    lemma_remove_sunk_len(marked, h);
}

/// A set with at least one latch holds a latched platform.
proof fn lemma_latched_witness(s: Seq<Platform>)
    requires
        latched_seq(s).len() > 0,
    ensures
        exists|i: int| 0 <= i < s.len() && (#[trigger] s[i]).newly_sinking,
    decreases s.len(),
{
    if s.len() > 0 {
        if s.last().newly_sinking {
            assert(s[s.len() - 1].newly_sinking);
        } else {
            lemma_latched_witness(s.drop_last());
            let i = choose|i: int|
                0 <= i < s.drop_last().len() && (#[trigger] s.drop_last()[i]).newly_sinking;
            assert(s[i].newly_sinking);
        }
    }
}

/// If no two distinct platforms carry a latch, at most one latch exists.
proof fn lemma_latched_at_most_one(s: Seq<Platform>)
    requires
        forall|i: int, j: int|
            0 <= i < s.len() && 0 <= j < s.len() && (#[trigger] s[i]).newly_sinking && (
            #[trigger] s[j]).newly_sinking ==> i == j,
    ensures
        latched_seq(s).len() <= 1,
    decreases s.len(),
{
    if s.len() > 0 {
        let rest = s.drop_last();
        assert(forall|i: int| 0 <= i < rest.len() ==> #[trigger] rest[i] == s[i]);
        lemma_latched_at_most_one(rest);
        if s.last().newly_sinking && latched_seq(rest).len() > 0 {
            lemma_latched_witness(rest);
            let i = choose|i: int| 0 <= i < rest.len() && (#[trigger] rest[i]).newly_sinking;
            assert(s[i].newly_sinking && s[s.len() - 1].newly_sinking);
            assert(false);
        }
    }
}

/// Removal never adds latches.
proof fn lemma_latched_remove_le(s: Seq<Platform>, h: int)
    ensures
        latched_seq(remove_sunk_seq(s, h)).len() <= latched_seq(s).len(),
    decreases s.len(),
{
    if s.len() > 0 {
        lemma_latched_remove_le(s.drop_last(), h);
        let p = s.last();
        if !sunk(p, h) {
            let rest = remove_sunk_seq(s.drop_last(), h);
            assert(rest.push(p).drop_last() =~= rest);
            assert(rest.push(p).last() == p);
        }
    }
}

/// Law: the platform count stays within one of its previous value when at
/// most one platform triggers in a tick, as in play, where the platforms'
/// spacing lets the player pass only one platform at a time: a two-platform
/// steady state peaks at three during the sink-rise overlap.
pub proof fn lemma_tick_single_trigger_bound(
    s: Seq<Platform>,
    f: Seq<Platform>,
    player_x: int,
    h: int,
)
    requires
        tick_rel(s, f, player_x, h),
        forall|i: int| 0 <= i < s.len() ==> !(#[trigger] s[i]).newly_sinking,
        forall|i: int, j: int|
            0 <= i < s.len() && 0 <= j < s.len() && sink_trigger(
                move_step(#[trigger] s[i]),
                player_x,
            ) && sink_trigger(move_step(#[trigger] s[j]), player_x) ==> i == j,
    ensures
        f.len() <= s.len() + 1,
{
    let moved = moved_seq(s);
    let marked = marked_seq(moved, player_x);
    assert forall|i: int, j: int|
        0 <= i < marked.len() && 0 <= j < marked.len() && (#[trigger] marked[i]).newly_sinking
            && (#[trigger] marked[j]).newly_sinking implies i == j by {
        assert(marked[i] == sink_step(moved[i], player_x));
        assert(marked[j] == sink_step(moved[j], player_x));
        assert(moved[i] == move_step(s[i]) && moved[j] == move_step(s[j]));
        assert(sink_trigger(move_step(s[i]), player_x));
        assert(sink_trigger(move_step(s[j]), player_x));
    }
    lemma_latched_at_most_one(marked);
    lemma_latched_remove_le(marked, h);
    lemma_remove_sunk_len(marked, h);
}

/// Law: one lifecycle tick preserves the number of live (idle or rising)
/// platforms. Every platform that starts sinking is replaced by exactly one
/// rising platform, and only sinking platforms are ever despawned. The one
/// proviso: no platform may first trigger while already below the removal
/// cutoff; in play, platforms trigger at resting height, far above it.
pub proof fn lemma_tick_preserves_live_count(
    s: Seq<Platform>,
    f: Seq<Platform>,
    player_x: int,
    h: int,
)
    requires
        tick_rel(s, f, player_x, h),
        forall|i: int| 0 <= i < s.len() ==> !(#[trigger] s[i]).newly_sinking,
        forall|i: int|
            0 <= i < s.len() ==> sink_trigger(move_step(#[trigger] s[i]), player_x)
                ==> move_step(s[i]).y as int >= -h,
    ensures
        alive_count(f) == alive_count(s),
{
    let moved = moved_seq(s);
    let marked = marked_seq(moved, player_x);
    let kept = kept_seq(s, player_x, h);
    let born = latched_seq(kept);
    lemma_alive_moved(s);
    assert(forall|i: int| 0 <= i < moved.len() ==> !(#[trigger] moved[i]).newly_sinking);
    lemma_alive_marked(moved, player_x);
    assert forall|i: int|
        0 <= i < marked.len() && (#[trigger] marked[i]).newly_sinking implies marked[i].y as int
        >= -h by {
        assert(marked[i] == sink_step(moved[i], player_x));
        assert(moved[i] == move_step(s[i]));
        assert(sink_trigger(moved[i], player_x));
    }
    lemma_remove_sunk_alive(marked, h);
    let fp = f.subrange(0, kept.len() as int);
    let fs = f.subrange(kept.len() as int, f.len() as int);
    assert(f =~= fp + fs);
    assert forall|i: int| 0 <= i < fp.len() implies (alive(#[trigger] fp[i]) <==> alive(
        kept[i],
    )) by {
        assert(fp[i] == f[i] && f[i] == stop_step(clear_latch(kept[i])));
    }
    lemma_alive_count_pointwise(fp, kept);
    assert forall|i: int| 0 <= i < fs.len() implies alive(#[trigger] fs[i]) by {
        assert(fs[i] == f[kept.len() + i]);
        assert(is_replacement(born[i], h, f[kept.len() + i]));
    }
    lemma_alive_count_all(fs);
    lemma_alive_count_append(fp, fs);
}

/// The set of live platforms.
pub struct PlatformManager {
    pub platforms: Vec<Platform>,
}

impl PlatformManager {
    /// An empty manager, as it stands before the first session.
    pub fn new() -> (m: PlatformManager)
        ensures
            m.platforms@.len() == 0,
    {
        PlatformManager { platforms: Vec::new() }
    }

    /// The kinematic step of the simulation: every platform moves by its
    /// vertical velocity for one tick.
    pub fn apply_vertical_velocity(&mut self)
        requires
            wf_platforms(old(self).platforms@),
            bounded_platforms(old(self).platforms@),
        ensures
            final(self).platforms@.len() == old(self).platforms@.len(),
            forall|i: int|
                0 <= i < old(self).platforms@.len() ==> #[trigger] final(self).platforms@[i]
                    == move_step(old(self).platforms@[i]),
            wf_platforms(final(self).platforms@),
    {
        let ghost orig = self.platforms@;
        let mut out: Vec<Platform> = Vec::new();
        while self.platforms.len() > 0
            invariant
                wf_platforms(orig),
                bounded_platforms(orig),
                out@.len() + self.platforms@.len() == orig.len(),
                self.platforms@ =~= orig.skip(out@.len() as int),
                forall|j: int| 0 <= j < out@.len() ==> #[trigger] out@[j] == move_step(orig[j]),
                wf_platforms(out@),
            decreases self.platforms@.len(),
        {
            let ghost i = out@.len() as int;
            let mut p = self.platforms.remove(0);
            assert(p == orig[i]);
            p.y = p.y + p.vel_y;
            out.push(p);
            proof {
                assert(self.platforms@ =~= orig.skip(i + 1));
                assert(out@[i] == move_step(orig[i]));
            }
        }
        self.platforms = out;
    }

    /// Sink pass: every platform that the player has passed by more than the
    /// margin starts sinking and raises its edge latch. Already sinking
    /// platforms and platforms without a collider are untouched.
    pub fn sink_passed_platforms(&mut self, player_x: i64)
        requires
            wf_platforms(old(self).platforms@),
            slack_platforms(old(self).platforms@),
            -POS_LIMIT <= player_x <= POS_LIMIT,
        ensures
            final(self).platforms@.len() == old(self).platforms@.len(),
            forall|i: int|
                0 <= i < old(self).platforms@.len() ==> #[trigger] final(self).platforms@[i]
                    == sink_step(old(self).platforms@[i], player_x as int),
            wf_platforms(final(self).platforms@),
    {
        let ghost orig = self.platforms@;
        let mut out: Vec<Platform> = Vec::new();
        while self.platforms.len() > 0
            invariant
                wf_platforms(orig),
                slack_platforms(orig),
                -POS_LIMIT <= player_x <= POS_LIMIT,
                out@.len() + self.platforms@.len() == orig.len(),
                self.platforms@ =~= orig.skip(out@.len() as int),
                forall|j: int|
                    0 <= j < out@.len() ==> #[trigger] out@[j] == sink_step(
                        orig[j],
                        player_x as int,
                    ),
                wf_platforms(out@),
            decreases self.platforms@.len(),
        {
            let ghost i = out@.len() as int;
            let mut p = self.platforms.remove(0);
            assert(p == orig[i]);
            assert(wf_platform(p) && slack_platform(p));
            let already_sinking = match p.tag {
                LifecycleTag::Sinking => true,
                _ => false,
            };
            let mut trigger = false;
            if !already_sinking {
                match &p.collider {
                    Some(c) => {
                        let edge = p.x + c.max_x();
                        trigger = player_x - edge > SINK_MARGIN;
                    },
                    None => {},
                }
            }
            assert(trigger == sink_trigger(p, player_x as int));
            if trigger {
                p.vel_y = -SINK_SPEED;
                p.tag = LifecycleTag::Sinking;
                p.newly_sinking = true;
            }
            out.push(p);
            proof {
                assert(self.platforms@ =~= orig.skip(i + 1));
                assert(out@[i] == sink_step(orig[i], player_x as int));
            }
        }
        self.platforms = out;
    }

    /// Removal pass: every sinking platform whose vertical position has
    /// fallen below the negative viewport height is despawned.
    pub fn remove_sunk_platforms(&mut self, window_height: i64)
        requires
            wf_platforms(old(self).platforms@),
            1 <= window_height <= WINDOW_LIMIT,
        ensures
            final(self).platforms@ == remove_sunk_seq(old(self).platforms@, window_height as int),
            wf_platforms(final(self).platforms@),
    {
        let ghost orig = self.platforms@;
        let ghost h = window_height as int;
        let n = self.platforms.len();
        let mut out: Vec<Platform> = Vec::new();
        let mut done: usize = 0;
        while self.platforms.len() > 0
            invariant
                wf_platforms(orig),
                1 <= window_height <= WINDOW_LIMIT,
                h == window_height as int,
                n == orig.len(),
                done + self.platforms@.len() == orig.len(),
                self.platforms@ =~= orig.skip(done as int),
                out@ == remove_sunk_seq(orig.take(done as int), h),
                wf_platforms(out@),
            decreases self.platforms@.len(),
        {
            let ghost i = done as int;
            let p = self.platforms.remove(0);
            assert(p == orig[i]);
            assert(wf_platform(p));
            let is_sinking = match p.tag {
                LifecycleTag::Sinking => true,
                _ => false,
            };
            proof {
                assert(orig.take(i + 1).drop_last() =~= orig.take(i));
                assert(orig.take(i + 1).last() == orig[i]);
            }
            if !(is_sinking && p.y < -window_height) {
                assert(!sunk(p, h));
                out.push(p);
            } else {
                assert(sunk(p, h));
            }
            proof {
                assert(self.platforms@ =~= orig.skip(i + 1));
                assert(out@ == remove_sunk_seq(orig.take(i + 1), h));
            }
            done = done + 1;
        }
        proof {
            assert(orig.take(orig.len() as int) =~= orig);
        }
        self.platforms = out;
    }

    /// Settle pass: every rising platform that has reached or passed its
    /// target height stops and becomes idle.
    pub fn stop_rising_platforms(&mut self)
        requires
            wf_platforms(old(self).platforms@),
        ensures
            final(self).platforms@.len() == old(self).platforms@.len(),
            forall|i: int|
                0 <= i < old(self).platforms@.len() ==> #[trigger] final(self).platforms@[i]
                    == stop_step(old(self).platforms@[i]),
            wf_platforms(final(self).platforms@),
    {
        let ghost orig = self.platforms@;
        let mut out: Vec<Platform> = Vec::new();
        while self.platforms.len() > 0
            invariant
                wf_platforms(orig),
                out@.len() + self.platforms@.len() == orig.len(),
                self.platforms@ =~= orig.skip(out@.len() as int),
                forall|j: int| 0 <= j < out@.len() ==> #[trigger] out@[j] == stop_step(orig[j]),
                wf_platforms(out@),
            decreases self.platforms@.len(),
        {
            let ghost i = out@.len() as int;
            let mut p = self.platforms.remove(0);
            assert(p == orig[i]);
            assert(wf_platform(p));
            let settle = match p.tag {
                LifecycleTag::Rising { target_y } => p.y >= target_y,
                _ => false,
            };
            if settle {
                p.vel_y = 0;
                p.tag = LifecycleTag::Idle;
            }
            out.push(p);
            proof {
                assert(self.platforms@ =~= orig.skip(i + 1));
                assert(out@[i] == stop_step(orig[i]));
            }
        }
        self.platforms = out;
    }

    /// Despawns every platform, as happens on re-entering the pre-game state.
    pub fn despawn_platforms(&mut self)
        ensures
            final(self).platforms@.len() == 0,
    {
        self.platforms = Vec::new();
    }

    /// Seeds a fresh session: despawns everything, then spawns exactly two
    /// idle platforms at the fixed offsets, each with the default geometry.
    pub fn spawn_initial_platforms(&mut self)
        ensures
            final(self).platforms@.len() == 2,
            forall|i: int|
                0 <= i < 2 ==> initial_platform(#[trigger] final(self).platforms@[i], i),
            wf_platforms(final(self).platforms@),
            bounded_platforms(final(self).platforms@),
            forall|i: int| 0 <= i < 2 ==> !(#[trigger] final(self).platforms@[i]).newly_sinking,
    {
        self.platforms = Vec::new();
        let mut i: i64 = 0;
        while i < 2
            invariant
                0 <= i <= 2,
                self.platforms@.len() == i,
                forall|j: int|
                    0 <= j < i ==> initial_platform(#[trigger] self.platforms@[j], j),
                forall|j: int| 0 <= j < i ==> wf_platform(#[trigger] self.platforms@[j]),
                forall|j: int| 0 <= j < i ==> bounded_platform(#[trigger] self.platforms@[j]),
            decreases 2 - i,
        {
            let g = build_platform_geometry();
            let p = Platform {
                x: INITIAL_PLATFORM_SPACING * i,
                y: INITIAL_PLATFORM_Y,
                vel_y: 0,
                tag: LifecycleTag::Idle,
                newly_sinking: false,
                mesh: g.0,
                collider: g.1,
            };
            self.platforms.push(p);
            i = i + 1;
        }
    }

    /// Replacement pass: consumes every raised edge latch; for each freshly
    /// sinking platform, exactly one rising replacement is spawned far ahead
    /// of it and one viewport height below it, targeting its height.
    pub fn replace_sinking_platforms(&mut self, window_height: i64)
        requires
            wf_platforms(old(self).platforms@),
            slack_platforms(old(self).platforms@),
            1 <= window_height <= WINDOW_LIMIT,
        ensures
            final(self).platforms@.len() == old(self).platforms@.len() + latched_seq(
                old(self).platforms@,
            ).len(),
            forall|i: int|
                0 <= i < old(self).platforms@.len() ==> #[trigger] final(self).platforms@[i]
                    == clear_latch(old(self).platforms@[i]),
            forall|j: int|
                0 <= j < latched_seq(old(self).platforms@).len()
                    ==> is_replacement(
                    latched_seq(old(self).platforms@)[j],
                    window_height as int,
                    #[trigger] final(self).platforms@[old(self).platforms@.len() + j],
                ),
            wf_platforms(final(self).platforms@),
    {
        let ghost orig = self.platforms@;
        let ghost h = window_height as int;
        let n = self.platforms.len();
        let mut out: Vec<Platform> = Vec::new();
        let mut coords: Vec<(i64, i64)> = Vec::new();
        let mut done: usize = 0;
        while self.platforms.len() > 0
            invariant
                wf_platforms(orig),
                slack_platforms(orig),
                n == orig.len(),
                done + self.platforms@.len() == orig.len(),
                self.platforms@ =~= orig.skip(done as int),
                out@.len() == done,
                forall|j: int| 0 <= j < done ==> #[trigger] out@[j] == clear_latch(orig[j]),
                wf_platforms(out@),
                coords@.len() == latched_seq(orig.take(done as int)).len(),
                forall|j: int|
                    0 <= j < coords@.len() ==> (#[trigger] coords@[j]).0 == latched_seq(
                        orig.take(done as int),
                    )[j].x && coords@[j].1 == latched_seq(orig.take(done as int))[j].y,
                forall|j: int|
                    0 <= j < coords@.len() ==> -2 * POS_LIMIT <= (#[trigger] coords@[j]).0 <= 2
                        * POS_LIMIT && -2 * POS_LIMIT <= coords@[j].1 <= 2 * POS_LIMIT,
            decreases self.platforms@.len(),
        {
            let ghost i = done as int;
            let mut p = self.platforms.remove(0);
            assert(p == orig[i]);
            assert(wf_platform(p) && slack_platform(p));
            proof {
                assert(orig.take(i + 1).drop_last() =~= orig.take(i));
                assert(orig.take(i + 1).last() == orig[i]);
            }
            if p.newly_sinking {
                coords.push((p.x, p.y));
                p.newly_sinking = false;
            }
            out.push(p);
            proof {
                assert(self.platforms@ =~= orig.skip(i + 1));
                assert(out@[i] == clear_latch(orig[i]));
            }
            done = done + 1;
        }
        proof {
            assert(orig.take(orig.len() as int) =~= orig);
        }
        let ghost born = latched_seq(orig);
        let mut k: usize = 0;
        while k < coords.len()
            invariant
                1 <= window_height <= WINDOW_LIMIT,
                h == window_height as int,
                born == latched_seq(orig),
                k <= coords@.len(),
                coords@.len() == born.len(),
                forall|j: int|
                    0 <= j < coords@.len() ==> (#[trigger] coords@[j]).0 == born[j].x
                        && coords@[j].1 == born[j].y,
                forall|j: int|
                    0 <= j < coords@.len() ==> -2 * POS_LIMIT <= (#[trigger] coords@[j]).0 <= 2
                        * POS_LIMIT && -2 * POS_LIMIT <= coords@[j].1 <= 2 * POS_LIMIT,
                out@.len() == orig.len() + k,
                forall|j: int| 0 <= j < orig.len() ==> #[trigger] out@[j] == clear_latch(orig[j]),
                forall|j: int|
                    0 <= j < k ==> is_replacement(born[j], h, #[trigger] out@[orig.len() + j]),
                wf_platforms(out@),
            decreases coords@.len() - k,
        {
            let c = coords[k];
            let g = build_platform_geometry();
            let np = Platform {
                x: c.0 + REPLACEMENT_X_OFFSET,
                y: c.1 - window_height,
                vel_y: RISE_SPEED,
                tag: LifecycleTag::Rising { target_y: c.1 },
                newly_sinking: false,
                mesh: g.0,
                collider: g.1,
            };
            out.push(np);
            proof {
                assert(is_replacement(born[k as int], h, out@[orig.len() + k]));
            }
            k = k + 1;
        }
        self.platforms = out;
    }

    /// One full lifecycle tick, in the order the scheduler guarantees:
    /// kinematic motion, sink detection, removal of sunk platforms,
    /// replacement of freshly sinking ones, settling of arrived risers.
    pub fn tick(&mut self, player_x: i64, window_height: i64)
        requires
            wf_platforms(old(self).platforms@),
            bounded_platforms(old(self).platforms@),
            -POS_LIMIT <= player_x <= POS_LIMIT,
            1 <= window_height <= WINDOW_LIMIT,
        ensures
            tick_rel(
                old(self).platforms@,
                final(self).platforms@,
                player_x as int,
                window_height as int,
            ),
            wf_platforms(final(self).platforms@),
            forall|i: int|
                0 <= i < final(self).platforms@.len() ==> !(
                #[trigger] final(self).platforms@[i]).newly_sinking,
    {
        let ghost s0 = self.platforms@;
        let ghost h = window_height as int;
        self.apply_vertical_velocity();
        proof {
            assert(self.platforms@ =~= moved_seq(s0));
            assert(slack_platforms(self.platforms@));
        }
        let ghost moved = self.platforms@;
        self.sink_passed_platforms(player_x);
        proof {
            assert(self.platforms@ =~= marked_seq(moved, player_x as int));
            assert(slack_platforms(self.platforms@)) by {
                assert(forall|i: int|
                    0 <= i < moved.len() ==> (#[trigger] self.platforms@[i]).x == moved[i].x
                        && self.platforms@[i].y == moved[i].y);
            }
        }
        let ghost marked = self.platforms@;
        self.remove_sunk_platforms(window_height);
        proof {
            assert(self.platforms@ == kept_seq(s0, player_x as int, h));
            lemma_remove_sunk_slack(marked, h);
        }
        let ghost kept = self.platforms@;
        self.replace_sinking_platforms(window_height);
        let ghost replaced = self.platforms@;
        let ghost born = latched_seq(kept);
        self.stop_rising_platforms();
        proof {
            assert forall|i: int| 0 <= i < kept.len() implies #[trigger] self.platforms@[i]
                == stop_step(clear_latch(kept[i])) by {
                assert(replaced[i] == clear_latch(kept[i]));
            }
            assert forall|j: int| 0 <= j < born.len() implies is_replacement(
                born[j],
                h,
                #[trigger] self.platforms@[kept.len() + j],
            ) by {
                let np = replaced[kept.len() + j];
                assert(is_replacement(born[j], h, np));
                assert(np.y as int == born[j].y - h);
                assert(np.tag == (LifecycleTag::Rising { target_y: born[j].y }));
                assert(stop_step(np) == np);
                assert(self.platforms@[kept.len() + j] == stop_step(np));
            }
            assert(tick_rel(s0, self.platforms@, player_x as int, h));
            assert forall|i: int| 0 <= i < self.platforms@.len() implies !(
            #[trigger] self.platforms@[i]).newly_sinking by {
                if i < kept.len() {
                    assert(self.platforms@[i] == stop_step(clear_latch(kept[i])));
                } else {
                    let j = i - kept.len();
                    assert(self.platforms@[kept.len() + j] == self.platforms@[i]);
                    assert(is_replacement(born[j], h, self.platforms@[kept.len() + j]));
                }
            }
        }
    }
}

} // verus!
