//! Spike wall controller: a single kinematic hazard spanning the viewport's
//! vertical extent. It stands still until play begins, then chases the
//! player rightward at a fixed speed; when the session ends it snaps back to
//! its starting offset and stops.

use vstd::prelude::*;

use crate::platforms::WINDOW_LIMIT;

verus! {

/// Number of spike teeth along the wall.
pub const NUMBER_OF_SPIKES: i64 = 25;

/// Rightward speed of the wall during active play, world units per tick.
pub const SPIKE_SPEED: i64 = 50;

/// The hazard wall: position, velocity, its body extent, the geometry of one
/// tooth, and the entity identity the collision system reports.
#[derive(Clone, Copy, Debug, PartialEq, Eq, Structural)]
pub struct Spikes {
    pub id: u64,
    pub x: i64,
    pub vel_x: i64,
    pub width: i64,
    pub height: i64,
    pub spike_height: i64,
    pub spike_width: i64,
}

impl Spikes {
    /// Spawns the wall off-screen to the left, at rest, sized to the window:
    /// the body spans the window, each of the 25 teeth is a triangle one
    /// twenty-fifth of the window tall and twice as wide as tall.
    pub fn spawn_spikes(id: u64, window_width: i64, window_height: i64) -> (s: Spikes)
        requires
            1 <= window_width <= WINDOW_LIMIT,
            1 <= window_height <= WINDOW_LIMIT,
        ensures
            s.id == id,
            s.x == -window_width,
            s.vel_x == 0,
            s.width == window_width,
            s.height == window_height,
            s.spike_height as int == window_height as int / (NUMBER_OF_SPIKES as int),
            s.spike_width == 2 * s.spike_height,
    {
        let spike_height = window_height / NUMBER_OF_SPIKES;
        Spikes {
            id,
            x: -window_width,
            vel_x: 0,
            width: window_width,
            height: window_height,
            spike_height,
            spike_width: 2 * spike_height,
        }
    }

    /// Entering active play: the wall starts chasing at its fixed speed.
    pub fn begin_moving_spikes(&mut self)
        ensures
            *final(self) == (Spikes { vel_x: SPIKE_SPEED, ..*old(self) }),
    {
        self.vel_x = SPIKE_SPEED;
    }

    /// Leaving active play: back to the starting offset, at rest, so the
    /// next session begins from a consistent hazard position.
    pub fn reset_spikes(&mut self, window_width: i64)
        requires
            1 <= window_width <= WINDOW_LIMIT,
        ensures
            *final(self) == (Spikes {
                x: (-window_width) as i64,
                vel_x: 0,
                ..*old(self)
            }),
    {
        self.x = -window_width;
        self.vel_x = 0;
    }

    /// Local offsets of the 25 teeth along the wall's right edge, bottom to
    /// top: each tooth sits one tooth height above the previous, starting at
    /// the window's lower edge (in doubled coordinates, so halves are exact).
    /// The first component is the doubled horizontal offset, the second the
    /// doubled vertical offset of a tooth.
    pub fn tooth_offsets(&self) -> (v: Vec<(i64, i64)>)
        requires
            1 <= self.width <= WINDOW_LIMIT,
            1 <= self.height <= WINDOW_LIMIT,
            0 <= self.spike_height <= WINDOW_LIMIT,
            self.spike_width == 2 * self.spike_height,
        ensures
            v@.len() == NUMBER_OF_SPIKES,
            forall|i: int|
                0 <= i < v@.len() ==> (#[trigger] v@[i]).0 == self.width - 2 * self.spike_width
                    && v@[i].1 == 2 * self.spike_height * i - self.height,
    {
        let mut v: Vec<(i64, i64)> = Vec::new();
        let dx = self.width - 2 * self.spike_width;
        let mut i: i64 = 0;
        while i < NUMBER_OF_SPIKES
            invariant
                0 <= i <= NUMBER_OF_SPIKES,
                v@.len() == i,
                1 <= self.width <= WINDOW_LIMIT,
                1 <= self.height <= WINDOW_LIMIT,
                0 <= self.spike_height <= WINDOW_LIMIT,
                self.spike_width == 2 * self.spike_height,
                dx == self.width - 2 * self.spike_width,
                forall|j: int|
                    0 <= j < v@.len() ==> (#[trigger] v@[j]).0 == self.width - 2 * self.spike_width
                        && v@[j].1 == 2 * self.spike_height * j - self.height,
            decreases NUMBER_OF_SPIKES - i,
        {
            proof {
                assert(0 <= 2 * self.spike_height * i <= 2 * 1_000_000 * 25) by (nonlinear_arith)
                    requires 0 <= self.spike_height <= 1_000_000, 0 <= i <= 25;
            }
            let dy = 2 * self.spike_height * i - self.height;
            v.push((dx, dy));
            i = i + 1;
        }
        v
    }
}

} // verus!
