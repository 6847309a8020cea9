//! Player state machine: the binary life state, gravity modulation from the
//! tracked touch contact, the two death triggers (hazard collision and
//! falling out of the viewport), and the monotone travel-distance counter.
//!
//! The physics step owns the player's motion; these systems read the position
//! it reports and decide state, gravity scale and distance. All life-state
//! systems run only while the player is alive: death is terminal within a
//! session, until a new session respawns the player.

use vstd::prelude::*;

use crate::platforms::POS_LIMIT;
use crate::platforms::WINDOW_LIMIT;

verus! {

/// Life state of the player; `Dead` is terminal within a session.
#[derive(Clone, Copy, Debug, PartialEq, Eq, Structural)]
pub enum PlayerState {
    Alive,
    Dead,
}

/// Radius of the ball avatar, in world units.
pub const PLAYER_RADIUS: i64 = 50;

/// Gravity multiplier while the tracked contact is held.
pub const HELD_GRAVITY: i64 = 10;

/// Gravity multiplier while no contact is held.
pub const FLOAT_GRAVITY: i64 = 1;

/// The player's position, as the physics step reports it.
#[derive(Clone, Copy, Debug, PartialEq, Eq, Structural)]
pub struct Player {
    pub x: i64,
    pub y: i64,
}

/// Travel distance in meters: the furthest x reached, scaled down by 100.
#[derive(Clone, Copy, Debug, PartialEq, Eq, Structural)]
pub struct TravelDistanceMeters(pub i64);

/// The camera, which follows the player horizontally.
#[derive(Clone, Copy, Debug, PartialEq, Eq, Structural)]
pub struct Camera {
    pub x: i64,
}

/// The session state the player systems own: life state, the tracked touch
/// contact, the gravity multiplier, and the travel distance.
#[derive(Clone, Copy, Debug, PartialEq, Eq, Structural)]
pub struct PlayerSession {
    pub state: PlayerState,
    pub active_touch: Option<u64>,
    pub gravity_scale: i64,
    pub distance: TravelDistanceMeters,
}

/// The player fell out: strictly below the viewport's lower edge, adjusted
/// by half the player radius. Stated over doubled coordinates so that halves
/// stay exact in integers.
pub open spec fn fall_death(y: int, h: int) -> bool {
    2 * y + PLAYER_RADIUS < -h
}

/// Some colliding entity is one of the hazard's entities.
pub open spec fn has_common(colliding: Seq<u64>, spikes: Seq<u64>) -> bool {
    exists|j: int| 0 <= j < spikes.len() && colliding.contains(#[trigger] spikes[j])
}

/// The travel distance after observing the player at `x`: never decreases,
/// and reaches `x / 100` (rounded down) as soon as `x` does.
pub open spec fn travel_update(d: int, x: int) -> int {
    let q = x / 100;
    if q > d {
        q
    } else {
        d
    }
}

/// One tick of the tracked-contact bookkeeping: while a contact is tracked,
/// only its release is awaited; otherwise the first contact that was just
/// pressed is claimed. Claiming raises gravity; releasing restores it.
pub open spec fn gravity_step(
    s: PlayerSession,
    just_pressed: Seq<u64>,
    just_released: Seq<u64>,
) -> PlayerSession {
    match s.active_touch {
        Some(id) => if just_released.contains(id) {
            PlayerSession { active_touch: None, gravity_scale: FLOAT_GRAVITY, ..s }
        } else {
            s
        },
        None => if just_pressed.len() > 0 {
            PlayerSession {
                active_touch: Some(just_pressed[0]),
                gravity_scale: HELD_GRAVITY,
                ..s
            }
        } else {
            s
        },
    }
}

/// All player systems of one tick, in scheduler order: gravity control, the
/// two death triggers, the travel-distance update. Death decided this tick
/// gates the systems from the next tick on.
pub open spec fn player_tick_spec(
    s: PlayerSession,
    x: int,
    y: int,
    h: int,
    just_pressed: Seq<u64>,
    just_released: Seq<u64>,
    colliding: Seq<u64>,
    spikes: Seq<u64>,
) -> PlayerSession {
    let g = gravity_step(s, just_pressed, just_released);
    let dead = has_common(colliding, spikes) || fall_death(y, h);
    PlayerSession {
        state: if dead {
            PlayerState::Dead
        } else {
            g.state
        },
        distance: TravelDistanceMeters(travel_update(g.distance.0 as int, x) as i64),
        ..g
    }
}

/// Whether `v` holds `id`.
fn contains_id(v: &Vec<u64>, id: u64) -> (b: bool)
    ensures
        b == v@.contains(id),
{
    let mut i: usize = 0;
    while i < v.len()
        invariant
            i <= v@.len(),
            forall|j: int| 0 <= j < i ==> v@[j] != id,
        decreases v@.len() - i,
    {
        if v[i] == id {
            return true;
        }
        i = i + 1;
    }
    false
}

impl PlayerSession {
    /// The session as (re-)entering the pre-game state leaves it: a fresh
    /// alive player with gravity disabled until play begins.
    pub fn spawn_player() -> (s: PlayerSession)
        ensures
            s.state is Alive,
            s.active_touch is None,
            s.gravity_scale == 0,
            s.distance.0 == 0,
    {
        PlayerSession {
            state: PlayerState::Alive,
            active_touch: None,
            gravity_scale: 0,
            distance: TravelDistanceMeters(0),
        }
    }

    /// Entering active play: if a contact is already down, claim the first
    /// one and fall fast; otherwise float.
    pub fn enable_player_gravity(&mut self, touches: &Vec<u64>)
        ensures
            touches@.len() > 0 ==> *final(self) == (PlayerSession {
                active_touch: Some(touches@[0]),
                gravity_scale: HELD_GRAVITY,
                ..*old(self)
            }),
            touches@.len() == 0 ==> *final(self) == (PlayerSession {
                gravity_scale: FLOAT_GRAVITY,
                ..*old(self)
            }),
    {
        if touches.len() > 0 {
            self.active_touch = Some(touches[0]);
            self.gravity_scale = HELD_GRAVITY;
        } else {
            self.gravity_scale = FLOAT_GRAVITY;
        }
    }

    /// Per-tick gravity control over the tracked contact.
    pub fn gravity_control_system(&mut self, just_pressed: &Vec<u64>, just_released: &Vec<u64>)
        ensures
            *final(self) == gravity_step(*old(self), just_pressed@, just_released@),
    {
        match self.active_touch {
            Some(id) => {
                if contains_id(just_released, id) {
                    self.active_touch = None;
                    self.gravity_scale = FLOAT_GRAVITY;
                }
            },
            None => {
                if just_pressed.len() > 0 {
                    self.active_touch = Some(just_pressed[0]);
                    self.gravity_scale = HELD_GRAVITY;
                }
            },
        }
    }

    /// Death trigger: the player's colliding set holds a hazard entity.
    pub fn handle_player_collisions(&mut self, colliding: &Vec<u64>, spikes: &Vec<u64>)
        ensures
            final(self).state == (if has_common(colliding@, spikes@) {
                PlayerState::Dead
            } else {
                old(self).state
            }),
            *final(self) == (PlayerSession { state: final(self).state, ..*old(self) }),
    {
        let mut i: usize = 0;
        while i < spikes.len()
            invariant
                i <= spikes@.len(),
                *self == *old(self),
                forall|j: int| 0 <= j < i ==> !colliding@.contains(#[trigger] spikes@[j]),
            decreases spikes@.len() - i,
        {
            if contains_id(colliding, spikes[i]) {
                self.state = PlayerState::Dead;
                return ;
            }
            i = i + 1;
        }
    }

    /// Death trigger: the player fell strictly below the viewport.
    pub fn handle_player_fall(&mut self, player_y: i64, window_height: i64)
        requires
            -POS_LIMIT <= player_y <= POS_LIMIT,
            0 <= window_height <= WINDOW_LIMIT,
        ensures
            final(self).state == (if fall_death(player_y as int, window_height as int) {
                PlayerState::Dead
            } else {
                old(self).state
            }),
            *final(self) == (PlayerSession { state: final(self).state, ..*old(self) }),
    {
        if 2 * player_y + PLAYER_RADIUS < -window_height {
            self.state = PlayerState::Dead;
        }
    }

    /// Travel-distance update from the player's current x position.
    pub fn update_travel_distance(&mut self, player_x: i64)
        requires
            -POS_LIMIT <= player_x <= POS_LIMIT,
        ensures
            final(self).distance.0 as int == travel_update(
                old(self).distance.0 as int,
                player_x as int,
            ),
            *final(self) == (PlayerSession { distance: final(self).distance, ..*old(self) }),
    {
        let q = player_x.checked_div_euclid(100).unwrap();
        if q > self.distance.0 {
            self.distance = TravelDistanceMeters(q);
        }
    }

    /// Travel distance starts at zero when play begins.
    pub fn reset_travel_distance(&mut self)
        ensures
            *final(self) == (PlayerSession {
                distance: TravelDistanceMeters(0),
                ..*old(self)
            }),
    {
        self.distance = TravelDistanceMeters(0);
    }

    /// One tick of every player system, gated on the life state: a dead
    /// player is never updated again until a new session spawns a fresh one.
    pub fn player_tick(
        &mut self,
        player_x: i64,
        player_y: i64,
        window_height: i64,
        just_pressed: &Vec<u64>,
        just_released: &Vec<u64>,
        colliding: &Vec<u64>,
        spikes: &Vec<u64>,
    )
        requires
            -POS_LIMIT <= player_x <= POS_LIMIT,
            -POS_LIMIT <= player_y <= POS_LIMIT,
            0 <= window_height <= WINDOW_LIMIT,
        ensures
            old(self).state is Dead ==> *final(self) == *old(self),
            old(self).state is Alive ==> *final(self) == player_tick_spec(
                *old(self),
                player_x as int,
                player_y as int,
                window_height as int,
                just_pressed@,
                just_released@,
                colliding@,
                spikes@,
            ),
    {
        match self.state {
            PlayerState::Dead => {},
            PlayerState::Alive => {
                self.gravity_control_system(just_pressed, just_released);
                self.handle_player_collisions(colliding, spikes);
                self.handle_player_fall(player_y, window_height);
                self.update_travel_distance(player_x);
            },
        }
    }
}

/// The camera snaps to the player's horizontal position every tick.
pub fn camera_follow_player(camera: &mut Camera, player_x: i64)
    ensures
        final(camera).x == player_x,
{
    camera.x = player_x;
}

/// Law: travel distance tracks the furthest x reached. If the distance so
/// far equals `mx / 100` for the running maximum `mx >= 0`, then after
/// observing the player at any `x` it equals the new maximum divided by 100,
/// and it never decreases.
pub proof fn lemma_travel_distance_tracks_max(d: int, mx: int, x: int)
    requires
        mx >= 0,
        d == mx / 100,
    ensures
        travel_update(d, x) == (if x > mx {
            x
        } else {
            mx
        }) / 100,
        travel_update(d, x) >= d,
{
    if x > mx {
        vstd::arithmetic::div_mod::lemma_div_is_ordered(mx, x, 100);
    } else {
        vstd::arithmetic::div_mod::lemma_div_is_ordered(x, mx, 100);
    }
}

} // verus!
