//! The settings that the simulation core reads.

use vstd::prelude::*;
use crate::scalar::Scalar;

verus! {

/// Encoding of the default divergence limit (100.0): four times the square
/// of the default half-width of the sampled region.
pub const DEFAULT_DIVERGENCE_LIMIT_BITS: u32 = 0x42c8_0000;

/// Settings fixed at launch.
#[derive(Clone, Copy, Debug, PartialEq, Eq, Structural)]
pub struct Config {
    /// Population seeded before the first frame.
    pub initial_particles: usize,
    /// Newcomers seeded at the end of every frame.
    pub particles_per_frame: u32,
    /// Worker threads that integrate batches.
    pub workers: u32,
    /// Particles per batch.
    pub batch_size: usize,
    /// Period of a looping animation; 0 and 1 both mean that it never loops.
    pub loop_frames: u32,
    /// Whether rendered frames are recorded.
    pub saving: bool,
    /// Squared field magnitude from which a particle counts as diverged.
    pub divergence_limit: Scalar,
}

/// Why a configuration cannot drive a scheduler.
#[derive(Clone, Copy, Debug, PartialEq, Eq, Structural)]
pub enum ConfigError {
    /// The batch size is zero: no partition into batches exists.
    ZeroBatchSize,
    /// There is no worker to run a batch.
    ZeroWorkers,
}

impl Config {
    pub open spec fn spec_standard() -> Config {
        Config {
            initial_particles: 40000,
            particles_per_frame: 1000,
            workers: 8,
            batch_size: 512,
            loop_frames: 1,
            saving: false,
            divergence_limit: Scalar { bits: DEFAULT_DIVERGENCE_LIMIT_BITS },
        }
    }

    /// The default settings: an endless, unrecorded animation.
    #[verifier::when_used_as_spec(spec_standard)]
    pub fn standard() -> (config: Config)
        ensures
            config == Config::spec_standard(),
    {
        Config {
            initial_particles: 40000,
            particles_per_frame: 1000,
            workers: 8,
            batch_size: 512,
            loop_frames: 1,
            saving: false,
            divergence_limit: Scalar::from_bits(DEFAULT_DIVERGENCE_LIMIT_BITS),
        }
    }
}

} // verus!
