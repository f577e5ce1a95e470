//! The particle system: the population and the frame counter, and the step
//! that takes both from one frame to the next.

use vstd::prelude::*;
use vstd::pervasive::unreached;
use rand::rngs::StdRng;
use crate::config::{Config, ConfigError};
use crate::particle::{Birth, Motion, Particle, Segment};
use crate::scheduler::{
    covered, lemma_all_survivors_are_within_lifetime, lemma_covered, lemma_survivors_and_retired,
    outcomes_of, retired_count, survivors, BatchScheduler,
};
use crate::seeder::{lemma_births_repeat_every_loop, newborn, ParticleSeeder};

verus! {

/// The frame index that newcomers of `frame` are seeded with: the low 32
/// bits of the frame counter.
pub open spec fn spec_frame_index(frame: u64) -> u32 {
    (frame % 0x1_0000_0000) as u32
}

#[verifier::when_used_as_spec(spec_frame_index)]
pub fn frame_index(frame: u64) -> (index: u32)
    ensures
        index == spec_frame_index(frame),
{
    (frame % 0x1_0000_0000) as u32
}

/// The segments to draw for a population: one per particle that has been
/// integrated, in population order.
pub open spec fn segments_of(particles: Seq<Particle>) -> Seq<Segment>
    decreases particles.len(),
{
    if particles.len() == 0 {
        Seq::empty()
    } else {
        let earlier = segments_of(particles.drop_last());
        match particles.last().spec_segment() {
            Some(s) => earlier.push(s),
            None => earlier,
        }
    }
}

/// A population once its segments have been handed out.
pub open spec fn drawn(particles: Seq<Particle>) -> Seq<Particle> {
    particles.map_values(|p: Particle| p.spec_drawn())
}

/// Population, frame counter and settings of one simulation.
pub struct ParticleSystem {
    particles: Vec<Particle>,
    frame: u64,
    config: Config,
}

impl ParticleSystem {
    #[verifier::type_invariant]
    spec fn schedulable(&self) -> bool {
        self.config.batch_size > 0 && self.config.workers > 0
    }

    /// The particles, in the order in which batches are cut from them.
    pub closed spec fn population(&self) -> Seq<Particle> {
        self.particles@
    }

    /// Number of steps taken so far.
    pub closed spec fn spec_frame(&self) -> u64 {
        self.frame
    }

    pub closed spec fn spec_config(&self) -> Config {
        self.config
    }

    /// The seeder of newcomers.
    pub open spec fn spec_seeder(&self) -> ParticleSeeder {
        ParticleSeeder { loop_frames: self.spec_config().loop_frames }
    }

    /// The part of the population that lies in whole batches: what a step
    /// integrates.
    pub open spec fn in_batches(&self) -> Seq<Particle> {
        self.population().take(
            covered(self.population().len(), self.spec_config().batch_size as nat) as int,
        )
    }

    /// The population after a step in which the kernel returned `motions`
    /// for the particles in batches and the newcomers were born from
    /// `births`: the survivors first, then the newcomers.
    pub open spec fn population_after(&self, motions: Seq<Motion>, births: Seq<Birth>) -> Seq<
        Particle,
    > {
        survivors(self.in_batches(), motions, self.spec_config().divergence_limit) + newborn(
            births,
        )
    }

    /// A system at frame 0 whose initial population is seeded at frame 0,
    /// slot by slot. Fails on settings that no scheduler can be built from.
    pub fn new<S: Fn(u32, StdRng) -> Birth>(config: Config, draw: &S) -> (r: Result<
        ParticleSystem,
        ConfigError,
    >)
        requires
            forall|t: u32, g: StdRng| call_requires(*draw, (t, g)),
        ensures
            match r {
                Ok(system) => {
                    &&& config.batch_size > 0
                    &&& config.workers > 0
                    &&& system.spec_config() == config
                    &&& system.spec_frame() == 0
                    &&& exists|births: Seq<Birth>|
                        {
                            &&& #[trigger] system.spec_seeder().draws_all(
                                *draw,
                                0,
                                config.initial_particles as nat,
                                births,
                            )
                            &&& system.population() == newborn(births)
                        }
                },
                Err(ConfigError::ZeroBatchSize) => config.batch_size == 0,
                Err(ConfigError::ZeroWorkers) => config.batch_size > 0 && config.workers == 0,
            },
    {
        match BatchScheduler::new(config.batch_size, config.workers) {
            Err(e) => Err(e),
            Ok(_) => {
                let mut particles: Vec<Particle> = Vec::with_capacity(config.initial_particles);
                let seeder = ParticleSeeder::new(config.loop_frames);
                seeder.spawn(0, config.initial_particles, draw, &mut particles);
                let system = ParticleSystem { particles, frame: 0, config };
                proof {
                    let births = choose|births: Seq<Birth>|
                        {
                            &&& #[trigger] seeder.draws_all(
                                *draw,
                                0,
                                config.initial_particles as nat,
                                births,
                            )
                            &&& particles@ == Seq::<Particle>::empty() + newborn(births)
                        };
                    assert(particles@ =~= newborn(births));
                    assert(system.spec_seeder() == seeder);
                }
                Ok(system)
            },
        }
    }

    pub fn particles(&self) -> (particles: &Vec<Particle>)
        ensures
            particles@ == self.population(),
    {
        &self.particles
    }

    #[verifier::when_used_as_spec(spec_frame)]
    pub fn frame(&self) -> (frame: u64)
        ensures
            frame == self.spec_frame(),
    {
        self.frame
    }

    #[verifier::when_used_as_spec(spec_config)]
    pub fn config(&self) -> (config: Config)
        ensures
            config == self.spec_config(),
            config.batch_size > 0,
            config.workers > 0,
    {
        proof {
            use_type_invariant(self);
        }
        self.config
    }

    #[verifier::when_used_as_spec(spec_seeder)]
    pub fn seeder(&self) -> (seeder: ParticleSeeder)
        ensures
            seeder == self.spec_seeder(),
    {
        ParticleSeeder::new(self.config.loop_frames)
    }

    /// The scheduler that cuts this system's population into batches.
    pub fn scheduler(&self) -> (scheduler: BatchScheduler)
        ensures
            scheduler.spec_batch_size() == self.spec_config().batch_size,
            scheduler.spec_workers() == self.spec_config().workers,
    {
        proof {
            use_type_invariant(self);
        }
        match BatchScheduler::new(self.config.batch_size, self.config.workers) {
            Ok(scheduler) => scheduler,
            Err(_) => unreached(),
        }
    }

    /// Ends a step whose integration left `survivors`: they replace the
    /// population, the frame's newcomers are seeded behind them, slot by
    /// slot, and the frame counter moves on.
    pub fn advance<S: Fn(u32, StdRng) -> Birth>(&mut self, survivors: Vec<Particle>, draw: &S)
        requires
            old(self).spec_frame() < u64::MAX,
            forall|t: u32, g: StdRng| call_requires(*draw, (t, g)),
        ensures
            final(self).spec_config() == old(self).spec_config(),
            final(self).spec_frame() == old(self).spec_frame() + 1,
            exists|births: Seq<Birth>|
                {
                    &&& #[trigger] old(self).spec_seeder().draws_all(
                        *draw,
                        spec_frame_index(old(self).spec_frame()),
                        old(self).spec_config().particles_per_frame as nat,
                        births,
                    )
                    &&& final(self).population() == survivors@ + newborn(births)
                },
    {
        proof {
            use_type_invariant(&*self);
        }
        let seeder = self.seeder();
        let mut particles: Vec<Particle> = survivors;
        seeder.spawn(
            frame_index(self.frame),
            self.config.particles_per_frame as usize,
            draw,
            &mut particles,
        );
        self.particles = particles;
        self.frame = self.frame + 1;
    }

    /// One step of the simulation, batch after batch on the calling
    /// thread: integrates the particles in batches, keeps the survivors,
    /// seeds the frame's newcomers behind them and moves the frame counter
    /// on. The kernel is handed the frame counter as it was before the step.
    pub fn update<K: Fn(u64, Particle) -> Motion, S: Fn(u32, StdRng) -> Birth>(
        &mut self,
        kernel: &K,
        draw: &S,
    )
        requires
            old(self).spec_frame() < u64::MAX,
            forall|t: u64, p: Particle| call_requires(*kernel, (t, p)),
            forall|t: u32, g: StdRng| call_requires(*draw, (t, g)),
        ensures
            final(self).spec_config() == old(self).spec_config(),
            final(self).spec_frame() == old(self).spec_frame() + 1,
            exists|motions: Seq<Motion>, births: Seq<Birth>|
                #![trigger
                    outcomes_of(*kernel, old(self).spec_frame(), old(self).in_batches(), motions),
                    old(self).spec_seeder().draws_all(
                        *draw,
                        spec_frame_index(old(self).spec_frame()),
                        old(self).spec_config().particles_per_frame as nat,
                        births,
                    )]
                {
                    &&& outcomes_of(
                        *kernel,
                        old(self).spec_frame(),
                        old(self).in_batches(),
                        motions,
                    )
                    &&& old(self).spec_seeder().draws_all(
                        *draw,
                        spec_frame_index(old(self).spec_frame()),
                        old(self).spec_config().particles_per_frame as nat,
                        births,
                    )
                    &&& final(self).population() == old(self).population_after(motions, births)
                },
            forall|i: int|
                0 <= i < final(self).population().len() - old(
                    self,
                ).spec_config().particles_per_frame ==> {
                    &&& (#[trigger] final(self).population()[i]).updated
                    &&& !final(self).population()[i].age.spec_ge(
                        final(self).population()[i].lifetime,
                    )
                },
    {
        let scheduler = self.scheduler();
        let integrated: Vec<Particle> = scheduler.integrate_all(
            &self.particles,
            self.frame,
            self.config.divergence_limit,
            kernel,
        );
        let ghost kept = integrated@;
        self.advance(integrated, draw);
        proof {
            let limit = old(self).spec_config().divergence_limit;
            let motions = choose|motions: Seq<Motion>|
                {
                    &&& #[trigger] outcomes_of(
                        *kernel,
                        old(self).spec_frame(),
                        old(self).in_batches(),
                        motions,
                    )
                    &&& kept == survivors(old(self).in_batches(), motions, limit)
                };
            let births = choose|births: Seq<Birth>|
                {
                    &&& #[trigger] old(self).spec_seeder().draws_all(
                        *draw,
                        spec_frame_index(old(self).spec_frame()),
                        old(self).spec_config().particles_per_frame as nat,
                        births,
                    )
                    &&& self.population() == kept + newborn(births)
                };
            lemma_all_survivors_are_within_lifetime(old(self).in_batches(), motions, limit);
        }
    }

    /// Hands the renderer one segment for every particle that has been
    /// integrated, and restarts each such particle's trail at its current
    /// position. Particles that were never integrated are left alone.
    pub fn take_segments(&mut self) -> (segments: Vec<Segment>)
        ensures
            segments@ == segments_of(old(self).population()),
            final(self).population() == drawn(old(self).population()),
            final(self).spec_frame() == old(self).spec_frame(),
            final(self).spec_config() == old(self).spec_config(),
    {
        proof {
            use_type_invariant(&*self);
        }
        let mut particles: Vec<Particle> = Vec::new();
        std::mem::swap(&mut self.particles, &mut particles);
        let len: usize = particles.len();
        let mut segments: Vec<Segment> = Vec::new();
        let mut i: usize = 0;
        while i < len
            invariant
                i <= len,
                len == particles@.len(),
                len == old(self).particles@.len(),
                segments@ == segments_of(old(self).particles@.take(i as int)),
                forall|j: int| 0 <= j < i ==> particles@[j] == old(self).particles@[j].spec_drawn(),
                forall|j: int| i <= j < len ==> particles@[j] == old(self).particles@[j],
            decreases len - i,
        {
            let p: Particle = particles[i];
            assert(old(self).particles@.take(i + 1).drop_last() =~= old(self).particles@.take(
                i as int,
            ));
            match p.segment() {
                Some(s) => {
                    segments.push(s);
                    particles.set(
                        i,
                        Particle {
                            color: p.color,
                            position: p.position,
                            old_position: p.position,
                            lifetime: p.lifetime,
                            age: p.age,
                            updated: p.updated,
                        },
                    );
                },
                None => {},
            }
            i += 1;
        }
        proof {
            assert(old(self).particles@.take(len as int) =~= old(self).particles@);
        }
        self.particles = particles;
        segments
    }
}

/// Loop periodicity: in a looping animation the newcomers of a step are
/// those of the step one period earlier, as long as the frame counter
/// stays within its low 32 bits.
pub proof fn lemma_newcomers_repeat_every_loop<S: Fn(u32, StdRng) -> Birth>(
    system: ParticleSystem,
    draw: S,
    frame: u64,
    births: Seq<Birth>,
)
    requires
        system.spec_config().loop_frames > 1,
        frame + system.spec_config().loop_frames <= u32::MAX,
    ensures
        system.spec_seeder().draws_all(
            draw,
            spec_frame_index(frame),
            system.spec_config().particles_per_frame as nat,
            births,
        ) <==> system.spec_seeder().draws_all(
            draw,
            spec_frame_index((frame + system.spec_config().loop_frames) as u64),
            system.spec_config().particles_per_frame as nat,
            births,
        ),
{
    lemma_births_repeat_every_loop(
        system.spec_seeder(),
        draw,
        spec_frame_index(frame),
        system.spec_config().particles_per_frame as nat,
        births,
    );
}

/// What a step does to the size of the population: the particles behind
/// the last whole batch and the retired ones leave, the newcomers join.
pub proof fn lemma_population_accounting(
    system: ParticleSystem,
    motions: Seq<Motion>,
    births: Seq<Birth>,
)
    requires
        system.spec_config().batch_size > 0,
        motions.len() == system.in_batches().len(),
    ensures
        system.in_batches().len() == system.population().len() - system.population().len() % (
        system.spec_config().batch_size as nat),
        system.population_after(motions, births).len() == system.in_batches().len()
            - retired_count(
            system.in_batches(),
            motions,
            system.spec_config().divergence_limit,
        ) + births.len(),
{
    lemma_covered(system.population().len(), system.spec_config().batch_size as nat);
    lemma_survivors_and_retired(
        system.in_batches(),
        motions,
        system.spec_config().divergence_limit,
    );
}

/// Population conservation: a step in which no particle retires, on a
/// population that fills its batches, adds exactly the newcomers of one
/// frame.
pub proof fn lemma_population_is_conserved(
    system: ParticleSystem,
    motions: Seq<Motion>,
    births: Seq<Birth>,
)
    requires
        system.spec_config().batch_size > 0,
        system.population().len() % (system.spec_config().batch_size as nat) == 0,
        motions.len() == system.population().len(),
        births.len() == system.spec_config().particles_per_frame,
        retired_count(system.in_batches(), motions, system.spec_config().divergence_limit) == 0,
    ensures
        system.in_batches() == system.population(),
        system.population_after(motions, births).len() == system.population().len()
            + system.spec_config().particles_per_frame,
{
    lemma_covered(system.population().len(), system.spec_config().batch_size as nat);
    lemma_population_accounting(system, motions, births);
}

} // verus!
