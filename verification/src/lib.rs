//! Core logic of an endless side-scrolling platformer: procedural platform
//! geometry (spline tessellation into a stroked ribbon mesh and derivation of a
//! matching triangle-mesh collider), the platform recycling lifecycle, the
//! player's life-state machine with gravity control and travel distance, and
//! the spike-wall hazard controller.
//!
//! All geometry and positions are modelled in integer world units; the
//! rendering, physics integration and input layers around this crate supply
//! and consume these plain values.

pub mod collider;
pub mod platforms;
pub mod player;
pub mod session;
pub mod spikes;
pub mod tessellate;
