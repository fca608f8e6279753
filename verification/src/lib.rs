//! Collision and bounce-resolution engine for a breakout-style game.
//!
//! Geometry is modelled in fixed-point integer coordinates: a value of
//! `SCALE` sub-units stands for one spatial unit, so every query and state
//! transition is exact integer arithmetic, verified free of overflow and
//! panics.  Each simulation tick moves a body by `direction * speed * dt`,
//! resolves the world boundary, then every live obstacle, then the paddle,
//! in that fixed order.  Rendering, input polling and frame timing are
//! outside the engine; a tick consumes a plain [`context::Context`] of
//! inputs and exposes plain state back.

pub mod ball;
pub mod blocks;
pub mod collision;
pub mod context;
pub mod entity;
pub mod fixed;
pub mod geometry;
pub mod normalize;
pub mod player;

pub use fixed::SCALE;
