//! Session orchestration: the pre-game / active-play state that gates every
//! other component, and the tick scheduler that runs the components in order
//! against the position, input and collision data the external collaborators
//! (physics, window, input, UI) supply as plain values.

use vstd::prelude::*;

use crate::platforms::PlatformManager;
use crate::platforms::POS_LIMIT;
use crate::platforms::WINDOW_LIMIT;
use crate::platforms::bounded_platforms;
use crate::platforms::initial_platform;
use crate::platforms::remove_sunk_seq;
use crate::platforms::moved_seq;
use crate::platforms::stop_step;
use crate::platforms::tick_rel;
use crate::platforms::wf_platforms;
use crate::player::Camera;
use crate::player::Player;
use crate::player::PlayerSession;
use crate::player::PlayerState;
use crate::player::camera_follow_player;
use crate::player::player_tick_spec;
use crate::spikes::Spikes;

verus! {

/// The session state the UI drives; play systems run only in `Playing`.
#[derive(Clone, Copy, Debug, PartialEq, Eq, Structural)]
pub enum GameState {
    MainMenu,
    Playing,
    Paused,
}

/// The whole game world that one tick of the scheduler owns: session state,
/// the platform set, the player's session and physics-reported position, the
/// hazard wall and the camera, with the viewport extent.
pub struct GameWorld {
    pub state: GameState,
    pub platforms: PlatformManager,
    pub session: PlayerSession,
    pub player: Option<Player>,
    pub spikes: Spikes,
    pub camera: Camera,
    pub window_width: i64,
    pub window_height: i64,
}

/// What holds of the world between ticks: a sane viewport, well-formed
/// latch-free platforms, a nonnegative travel distance, and a player entity
/// exactly while the player is not dead.
pub open spec fn wf_world(w: GameWorld) -> bool {
    &&& 1 <= w.window_width <= WINDOW_LIMIT
    &&& 1 <= w.window_height <= WINDOW_LIMIT
    &&& wf_platforms(w.platforms.platforms@)
    &&& forall|i: int|
        0 <= i < w.platforms.platforms@.len() ==> !(
        #[trigger] w.platforms.platforms@[i]).newly_sinking
    &&& w.session.distance.0 >= 0
    &&& (w.player is None <==> w.session.state is Dead)
    &&& 0 <= w.spikes.vel_x <= 100
}

/// The platform pipeline of a tick without a player to pass platforms:
/// motion, removal of sunk platforms and settling still run; nothing sinks
/// and nothing is replaced.
pub open spec fn playerless_tick_rel(s: Seq<crate::platforms::Platform>, f: Seq<
    crate::platforms::Platform,
>, h: int) -> bool {
    let kept = remove_sunk_seq(moved_seq(s), h);
    &&& f.len() == kept.len()
    &&& forall|i: int| 0 <= i < kept.len() ==> #[trigger] f[i] == stop_step(kept[i])
}

impl GameWorld {
    /// A fresh world in the pre-game state: two idle platforms seeded, an
    /// alive player at the origin, the hazard wall parked off-screen.
    pub fn new(spike_id: u64, window_width: i64, window_height: i64) -> (w: GameWorld)
        requires
            1 <= window_width <= WINDOW_LIMIT,
            1 <= window_height <= WINDOW_LIMIT,
        ensures
            wf_world(w),
            w.state is MainMenu,
            w.platforms.platforms@.len() == 2,
            forall|i: int| 0 <= i < 2 ==> initial_platform(#[trigger] w.platforms.platforms@[i], i),
            w.session.state is Alive,
            w.session.distance.0 == 0,
            w.player == Some(Player { x: 0, y: 0 }),
            w.spikes.x == -window_width,
            w.spikes.vel_x == 0,
            w.window_width == window_width,
            w.window_height == window_height,
    {
        let mut platforms = PlatformManager::new();
        platforms.spawn_initial_platforms();
        GameWorld {
            state: GameState::MainMenu,
            platforms,
            session: PlayerSession::spawn_player(),
            player: Some(Player { x: 0, y: 0 }),
            spikes: Spikes::spawn_spikes(spike_id, window_width, window_height),
            camera: Camera { x: 0 },
            window_width,
            window_height,
        }
    }

    /// The main-menu press that starts a session: travel distance resets,
    /// gravity engages against the contacts already held, the wall starts
    /// chasing, and the world enters active play.
    pub fn handle_main_menu_pressed(&mut self, touches: &Vec<u64>)
        requires
            wf_world(*old(self)),
            old(self).state is MainMenu,
        ensures
            wf_world(*final(self)),
            final(self).state is Playing,
            final(self).session.distance.0 == 0,
            final(self).session.state == old(self).session.state,
            final(self).spikes.vel_x == crate::spikes::SPIKE_SPEED,
            final(self).platforms == old(self).platforms,
            final(self).player == old(self).player,
            touches@.len() > 0 ==> final(self).session.active_touch == Some(touches@[0])
                && final(self).session.gravity_scale == crate::player::HELD_GRAVITY,
            touches@.len() == 0 ==> final(self).session.gravity_scale
                == crate::player::FLOAT_GRAVITY,
    {
        self.state = GameState::Playing;
        self.session.reset_travel_distance();
        self.session.enable_player_gravity(touches);
        self.spikes.begin_moving_spikes();
    }

    /// The game-over continue press: back to the pre-game state. The wall
    /// resets, the platforms are reseeded, and a fresh alive player spawns.
    pub fn handle_continue_button_pressed(&mut self)
        requires
            wf_world(*old(self)),
            old(self).session.state is Dead,
        ensures
            wf_world(*final(self)),
            final(self).state is MainMenu,
            final(self).session.state is Alive,
            final(self).session.distance.0 == 0,
            final(self).platforms.platforms@.len() == 2,
            forall|i: int|
                0 <= i < 2 ==> initial_platform(#[trigger] final(self).platforms.platforms@[i], i),
            final(self).player == Some(Player { x: 0, y: 0 }),
            final(self).spikes.x == -final(self).window_width,
            final(self).spikes.vel_x == 0,
            final(self).window_width == old(self).window_width,
            final(self).window_height == old(self).window_height,
    {
        self.state = GameState::MainMenu;
        self.spikes.reset_spikes(self.window_width);
        self.platforms.despawn_platforms();
        self.platforms.spawn_initial_platforms();
        self.session = PlayerSession::spawn_player();
        self.player = Some(Player { x: 0, y: 0 });
    }

    /// One tick of the scheduler. Outside active play nothing runs. During
    /// play, the physics-reported player position drives the platform
    /// pipeline and the player systems, the wall advances by its velocity,
    /// and the camera follows; a player that dies this tick is despawned.
    /// Once dead, the player's session is never updated again within the
    /// session; the platform pipeline keeps running without sink triggers.
    pub fn tick(
        &mut self,
        player_pos: (i64, i64),
        just_pressed: &Vec<u64>,
        just_released: &Vec<u64>,
        colliding: &Vec<u64>,
    )
        requires
            wf_world(*old(self)),
            bounded_platforms(old(self).platforms.platforms@),
            -POS_LIMIT <= player_pos.0 <= POS_LIMIT,
            -POS_LIMIT <= player_pos.1 <= POS_LIMIT,
            -POS_LIMIT <= old(self).spikes.x <= POS_LIMIT,
        ensures
            wf_world(*final(self)),
            !(old(self).state is Playing) ==> *final(self) == *old(self),
            old(self).state is Playing ==> {
                &&& final(self).state is Playing
                &&& final(self).spikes == (Spikes {
                    x: (old(self).spikes.x + old(self).spikes.vel_x) as i64,
                    ..old(self).spikes
                })
                &&& final(self).window_width == old(self).window_width
                &&& final(self).window_height == old(self).window_height
            },
            old(self).state is Playing && old(self).session.state is Alive ==> {
                &&& tick_rel(
                    old(self).platforms.platforms@,
                    final(self).platforms.platforms@,
                    player_pos.0 as int,
                    old(self).window_height as int,
                )
                &&& final(self).session == player_tick_spec(
                    old(self).session,
                    player_pos.0 as int,
                    player_pos.1 as int,
                    old(self).window_height as int,
                    just_pressed@,
                    just_released@,
                    colliding@,
                    seq![old(self).spikes.id],
                )
                &&& final(self).player == (if final(self).session.state is Dead {
                    None
                } else {
                    Some(Player { x: player_pos.0, y: player_pos.1 })
                })
                &&& final(self).camera.x == player_pos.0
            },
            old(self).state is Playing && old(self).session.state is Dead ==> {
                &&& playerless_tick_rel(
                    old(self).platforms.platforms@,
                    final(self).platforms.platforms@,
                    old(self).window_height as int,
                )
                &&& final(self).session == old(self).session
                &&& final(self).player is None
                &&& final(self).camera == old(self).camera
            },
    {
        let playing = match self.state {
            GameState::Playing => true,
            _ => false,
        };
        if !playing {
            return ;
        }
        let alive = match self.session.state {
            PlayerState::Alive => true,
            PlayerState::Dead => false,
        };
        if alive {
            let px = player_pos.0;
            let py = player_pos.1;
            self.player = Some(Player { x: px, y: py });
            self.platforms.tick(px, self.window_height);
            let mut spike_ids: Vec<u64> = Vec::new();
            spike_ids.push(self.spikes.id);
            proof {
                assert(spike_ids@ =~= seq![self.spikes.id]);
            }
            self.session.player_tick(
                px,
                py,
                self.window_height,
                just_pressed,
                just_released,
                colliding,
                &spike_ids,
            );
            camera_follow_player(&mut self.camera, px);
            let dead_now = match self.session.state {
                PlayerState::Dead => true,
                PlayerState::Alive => false,
            };
            if dead_now {
                self.player = None;
            }
        } else {
            let ghost s0 = self.platforms.platforms@;
            let ghost h = self.window_height as int;
            self.platforms.apply_vertical_velocity();
            proof {
                assert(self.platforms.platforms@ =~= moved_seq(s0));
                assert(forall|i: int|
                    0 <= i < moved_seq(s0).len() ==> !(
                    #[trigger] moved_seq(s0)[i]).newly_sinking);
            }
            self.platforms.remove_sunk_platforms(self.window_height);
            proof {
                crate::platforms::lemma_remove_sunk_unlatched(moved_seq(s0), h);
            }
            self.platforms.stop_rising_platforms();
        }
        self.spikes.x = self.spikes.x + self.spikes.vel_x;
    }
}

} // verus!
