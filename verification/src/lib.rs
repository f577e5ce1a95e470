//! Core of a particle simulation that advects short-lived particles through a
//! fixed planar vector field.
//!
//! The numerical kernel (field evaluation and advection in single precision)
//! and the draws that shape a newborn particle are supplied by the caller.
//! This crate owns everything that is decided on top of them: seeding keys
//! and generators, batch partitioning, retirement, population bookkeeping,
//! the hand-off to the renderer and the recording of frames.
//!
//! Single-precision values cross the boundary as their encodings, see
//! [`scalar::Scalar`]; they are classified and ordered here, never computed
//! with.
//!
//! - [`scalar`]: single-precision values and their order.
//! - [`particle`]: particles, births, motions, segments, and the rule of
//!   retirement.
//! - [`seeder`]: keys and generators per frame and slot.
//! - [`scheduler`]: batches, and the integration of one or all of them.
//! - [`system`]: the population and its step from frame to frame.
//! - [`sink`]: which frames are recorded, and how they are numbered.
//! - [`config`]: the settings.

pub mod config;
pub mod particle;
pub mod scalar;
pub mod scheduler;
pub mod seeder;
pub mod sink;
pub mod system;
