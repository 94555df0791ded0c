//! A particle world: point particles of a few kinds attract and repel one
//! another, pair of kinds by pair of kinds, and drift into patterns.
//!
//! Every real quantity (a coordinate, a radius, a strength) is a fixed-point
//! scalar, so that each rule of the world is an exact statement about
//! integers. See [`scalar`] for the representation.
//!
//! - [`scalar`] and [`vec2`] hold the numbers of the world.
//! - [`params`], [`particle`], [`kinds`] and [`colour`] hold what a world is
//!   made of.
//! - [`random`] holds the generators and the draws made from them.
//! - [`force`], [`tick`] and [`schedule`] say what a tick does to a
//!   particle, and share the work among workers.
//! - [`world`] holds the world itself.
//! - [`kind_list`] holds a list of kinds that can grow and shrink.
//! - [`control`] and [`render`] serve whoever shows the world in a window.

pub mod scalar;
pub mod vec2;
pub mod params;
pub mod particle;
pub mod kinds;
pub mod kind_list;
pub mod colour;
pub mod random;
pub mod force;
pub mod tick;
pub mod schedule;
pub mod world;
pub mod control;
pub mod render;

pub use crate::kinds::{Colour, KindDraws, ParticleKinds};
pub use crate::params::{Boundary, Span, WorldParameters};
pub use crate::particle::Particle;
pub use crate::random::{generate_seed, StrengthSampler};
pub use crate::scalar::ONE;
pub use crate::vec2::Vec2;
pub use crate::world::World;
