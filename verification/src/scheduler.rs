//! Partition of a population into fixed-size batches, and the integration
//! of one batch or of all of them.

use vstd::prelude::*;
use vstd::arithmetic::div_mod::lemma_fundamental_div_mod;
use crate::config::ConfigError;
use crate::particle::{Motion, Particle};
use crate::scalar::Scalar;

verus! {

/// A contiguous range of indices into a population, `start` included and
/// `end` excluded.
#[derive(Clone, Copy, Debug, PartialEq, Eq, Structural)]
pub struct Batch {
    pub start: usize,
    pub end: usize,
}

impl Batch {
    /// First index of the batch that exists in a population of `len`.
    pub open spec fn lower(self, len: nat) -> nat {
        if self.start <= len {
            self.start as nat
        } else {
            len
        }
    }

    /// End of the batch within a population of `len`: indices beyond the
    /// population are cut off.
    pub open spec fn upper(self, len: nat) -> nat {
        if self.end <= self.lower(len) {
            self.lower(len)
        } else if self.end <= len {
            self.end as nat
        } else {
            len
        }
    }

    /// The particles of the batch, in order.
    pub open spec fn slice(self, particles: Seq<Particle>) -> Seq<Particle> {
        particles.subrange(self.lower(particles.len()) as int, self.upper(particles.len()) as int)
    }
}

/// Whether `motions` is what `kernel` may have returned for `particles` at
/// `frame`, one motion per particle.
pub open spec fn outcomes_of<K: Fn(u64, Particle) -> Motion>(
    kernel: K,
    frame: u64,
    particles: Seq<Particle>,
    motions: Seq<Motion>,
) -> bool {
    &&& motions.len() == particles.len()
    &&& forall|i: int|
        0 <= i < particles.len() ==> #[trigger] call_ensures(
            kernel,
            (frame, particles[i]),
            motions[i],
        )
}

/// The particles that outlive a frame, in the order of the population, each
/// moved by the motion at its index.
pub open spec fn survivors(particles: Seq<Particle>, motions: Seq<Motion>, limit: Scalar) -> Seq<
    Particle,
>
    recommends
        particles.len() == motions.len(),
    decreases particles.len(),
{
    if particles.len() == 0 || motions.len() == 0 {
        Seq::empty()
    } else {
        let earlier = survivors(particles.drop_last(), motions.drop_last(), limit);
        match particles.last().spec_integrate(motions.last(), limit) {
            Some(p) => earlier.push(p),
            None => earlier,
        }
    }
}

/// How many of the particles retire in a frame.
pub open spec fn retired_count(particles: Seq<Particle>, motions: Seq<Motion>, limit: Scalar) -> nat
    recommends
        particles.len() == motions.len(),
    decreases particles.len(),
{
    if particles.len() == 0 || motions.len() == 0 {
        0
    } else {
        let earlier = retired_count(particles.drop_last(), motions.drop_last(), limit);
        if particles.last().retires(motions.last(), limit) {
            earlier + 1
        } else {
            earlier
        }
    }
}

/// Survivors of a population laid end to end from two parts are the
/// survivors of the first part followed by those of the second.
pub proof fn lemma_survivors_of_parts(
    first: Seq<Particle>,
    first_motions: Seq<Motion>,
    second: Seq<Particle>,
    second_motions: Seq<Motion>,
    limit: Scalar,
)
    requires
        first.len() == first_motions.len(),
        second.len() == second_motions.len(),
    ensures
        survivors(first + second, first_motions + second_motions, limit) == survivors(
            first,
            first_motions,
            limit,
        ) + survivors(second, second_motions, limit),
    decreases second.len(),
{
    if second.len() > 0 {
        assert((first + second).drop_last() =~= first + second.drop_last());
        assert((first_motions + second_motions).drop_last() =~= first_motions
            + second_motions.drop_last());
        lemma_survivors_of_parts(
            first,
            first_motions,
            second.drop_last(),
            second_motions.drop_last(),
            limit,
        );
    }
}

/// Whether `survivor` is what some particle of the population became in a
/// frame that it outlived.
pub open spec fn outlived(
    particles: Seq<Particle>,
    motions: Seq<Motion>,
    limit: Scalar,
    survivor: Particle,
) -> bool {
    exists|j: int|
        0 <= j < particles.len() && #[trigger] particles[j].spec_integrate(motions[j], limit)
            == Some(survivor)
}

/// Retirement correctness: whatever is among the survivors of a frame was
/// a particle of the population that did not retire. It is marked as
/// integrated, and its age has not reached its lifetime.
pub proof fn lemma_survivors_are_within_lifetime(
    particles: Seq<Particle>,
    motions: Seq<Motion>,
    limit: Scalar,
    i: int,
)
    requires
        particles.len() == motions.len(),
        0 <= i < survivors(particles, motions, limit).len(),
    ensures
        outlived(particles, motions, limit, survivors(particles, motions, limit)[i]),
        survivors(particles, motions, limit)[i].updated,
        !survivors(particles, motions, limit)[i].age.spec_ge(
            survivors(particles, motions, limit)[i].lifetime,
        ),
    decreases particles.len(),
{
    let last = particles.len() - 1;
    let earlier = survivors(particles.drop_last(), motions.drop_last(), limit);
    let kept = survivors(particles, motions, limit)[i];
    if i < earlier.len() {
        lemma_survivors_are_within_lifetime(particles.drop_last(), motions.drop_last(), limit, i);
        let j = choose|j: int|
            0 <= j < last && #[trigger] particles.drop_last()[j].spec_integrate(
                motions.drop_last()[j],
                limit,
            ) == Some(kept);
        assert(particles[j].spec_integrate(motions[j], limit) == Some(kept));
    } else {
        assert(particles[last].spec_integrate(motions[last], limit) == Some(kept));
    }
}

/// All survivors at once: each is marked as integrated and younger than its
/// lifetime allows.
pub proof fn lemma_all_survivors_are_within_lifetime(
    particles: Seq<Particle>,
    motions: Seq<Motion>,
    limit: Scalar,
)
    requires
        particles.len() == motions.len(),
    ensures
        forall|i: int|
            0 <= i < survivors(particles, motions, limit).len() ==> {
                &&& (#[trigger] survivors(particles, motions, limit)[i]).updated
                &&& !survivors(particles, motions, limit)[i].age.spec_ge(
                    survivors(particles, motions, limit)[i].lifetime,
                )
            },
{
    assert forall|i: int| 0 <= i < survivors(particles, motions, limit).len() implies {
        &&& (#[trigger] survivors(particles, motions, limit)[i]).updated
        &&& !survivors(particles, motions, limit)[i].age.spec_ge(
            survivors(particles, motions, limit)[i].lifetime,
        )
    } by {
        lemma_survivors_are_within_lifetime(particles, motions, limit, i);
    }
}

/// A particle that retires leaves no trace: the survivors are those of the
/// population without it. This holds of a particle that has reached its
/// lifetime as of one whose field has reached the limit or is not finite.
pub proof fn lemma_retired_leave_no_trace(
    particles: Seq<Particle>,
    motions: Seq<Motion>,
    limit: Scalar,
    j: int,
)
    requires
        particles.len() == motions.len(),
        0 <= j < particles.len(),
        particles[j].retires(motions[j], limit),
    ensures
        survivors(particles, motions, limit) == survivors(
            particles.remove(j),
            motions.remove(j),
            limit,
        ),
    decreases particles.len(),
{
    if j < particles.len() - 1 {
        assert(particles.remove(j).drop_last() =~= particles.drop_last().remove(j));
        assert(motions.remove(j).drop_last() =~= motions.drop_last().remove(j));
        lemma_retired_leave_no_trace(particles.drop_last(), motions.drop_last(), limit, j);
    }
}

/// Every particle of a frame either survives it or retires in it.
pub proof fn lemma_survivors_and_retired(
    particles: Seq<Particle>,
    motions: Seq<Motion>,
    limit: Scalar,
)
    requires
        particles.len() == motions.len(),
    ensures
        survivors(particles, motions, limit).len() + retired_count(particles, motions, limit)
            == particles.len(),
    decreases particles.len(),
{
    if particles.len() > 0 {
        lemma_survivors_and_retired(particles.drop_last(), motions.drop_last(), limit);
    }
}

/// Integrates the particles of one batch, in order, and returns those that
/// survive. Indices of the batch beyond the population are skipped. The
/// kernel is called once per particle of the batch, with `frame`.
pub fn integrate_batch<K: Fn(u64, Particle) -> Motion>(
    particles: &Vec<Particle>,
    batch: Batch,
    frame: u64,
    limit: Scalar,
    kernel: &K,
) -> (kept: Vec<Particle>)
    requires
        forall|t: u64, p: Particle| call_requires(*kernel, (t, p)),
    ensures
        exists|motions: Seq<Motion>|
            {
                &&& #[trigger] outcomes_of(*kernel, frame, batch.slice(particles@), motions)
                &&& kept@ == survivors(batch.slice(particles@), motions, limit)
            },
        forall|i: int|
            0 <= i < kept@.len() ==> (#[trigger] kept@[i]).updated && !kept@[i].age.spec_ge(
                kept@[i].lifetime,
            ),
{
    let len: usize = particles.len();
    let lo: usize = if batch.start <= len {
        batch.start
    } else {
        len
    };
    let hi: usize = if batch.end <= lo {
        lo
    } else if batch.end <= len {
        batch.end
    } else {
        len
    };
    let mut kept: Vec<Particle> = Vec::with_capacity(hi - lo);
    let ghost mut motions: Seq<Motion> = Seq::empty();
    let mut o: usize = lo;
    while o < hi
        invariant
            lo <= o <= hi <= particles.len(),
            forall|t: u64, p: Particle| call_requires(*kernel, (t, p)),
            outcomes_of(*kernel, frame, particles@.subrange(lo as int, o as int), motions),
            kept@ == survivors(particles@.subrange(lo as int, o as int), motions, limit),
        decreases hi - o,
    {
        let particle: Particle = particles[o];
        let motion: Motion = kernel(frame, particle);
        proof {
            let done = particles@.subrange(lo as int, o as int);
            let next = particles@.subrange(lo as int, o + 1);
            assert(next.drop_last() =~= done);
            assert(motions.push(motion).drop_last() =~= motions);
            motions = motions.push(motion);
        }
        match particle.integrate(motion, limit) {
            Some(p) => {
                kept.push(p);
            },
            None => {},
        }
        o += 1;
    }
    proof {
        lemma_all_survivors_are_within_lifetime(batch.slice(particles@), motions, limit);
    }
    kept
}

/// Number of particles of a population of `len` that lie in whole batches
/// of `batch_size`.
pub open spec fn covered(len: nat, batch_size: nat) -> nat {
    (len / batch_size) * batch_size
}

/// Splits populations into batches of one size for a pool of workers.
#[derive(Clone, Copy, Debug)]
pub struct BatchScheduler {
    batch_size: usize,
    workers: u32,
}

impl BatchScheduler {
    #[verifier::type_invariant]
    spec fn usable(&self) -> bool {
        self.batch_size > 0 && self.workers > 0
    }

    pub closed spec fn spec_batch_size(&self) -> usize {
        self.batch_size
    }

    pub closed spec fn spec_workers(&self) -> u32 {
        self.workers
    }

    /// A scheduler for the given sizes, both of which must be positive.
    pub fn new(batch_size: usize, workers: u32) -> (r: Result<BatchScheduler, ConfigError>)
        ensures
            match r {
                Ok(s) => batch_size > 0 && workers > 0 && s.spec_batch_size() == batch_size
                    && s.spec_workers() == workers,
                Err(ConfigError::ZeroBatchSize) => batch_size == 0,
                Err(ConfigError::ZeroWorkers) => batch_size > 0 && workers == 0,
            },
    {
        if batch_size == 0 {
            Err(ConfigError::ZeroBatchSize)
        } else if workers == 0 {
            Err(ConfigError::ZeroWorkers)
        } else {
            Ok(BatchScheduler { batch_size, workers })
        }
    }

    #[verifier::when_used_as_spec(spec_batch_size)]
    pub fn batch_size(&self) -> (size: usize)
        ensures
            size == self.spec_batch_size(),
            size > 0,
    {
        proof {
            use_type_invariant(self);
        }
        self.batch_size
    }

    #[verifier::when_used_as_spec(spec_workers)]
    pub fn workers(&self) -> (workers: u32)
        ensures
            workers == self.spec_workers(),
            workers > 0,
    {
        proof {
            use_type_invariant(self);
        }
        self.workers
    }

    /// The batches of a population of `len`, in order: as many whole
    /// batches as the population holds, laid end to end from index 0.
    pub fn plan(&self, len: usize) -> (batches: Vec<Batch>)
        ensures
            batches@.len() == len / self.spec_batch_size(),
            forall|n: int|
                0 <= n < batches@.len() ==> {
                    &&& (#[trigger] batches@[n]).start == n * self.spec_batch_size()
                    &&& batches@[n].end == batches@[n].start + self.spec_batch_size()
                    &&& batches@[n].end <= len
                },
    {
        let size: usize = self.batch_size();
        let count: usize = len / size;
        let mut batches: Vec<Batch> = Vec::new();
        let mut n: usize = 0;
        while n < count
            invariant
                size == self.spec_batch_size(),
                size > 0,
                count == len / size,
                n <= count,
                batches@.len() == n,
                forall|k: int|
                    0 <= k < n ==> {
                        &&& (#[trigger] batches@[k]).start == k * size
                        &&& batches@[k].end == batches@[k].start + size
                        &&& batches@[k].end <= len
                    },
            decreases count - n,
        {
            assert(n * size + size <= len) by (nonlinear_arith)
                requires
                    n < len / size,
                    size > 0,
            ;
            let start: usize = n * size;
            batches.push(Batch { start, end: start + size });
            n += 1;
        }
        batches
    }

    /// Integrates every batch of the population, one after the other, and
    /// returns the survivors in population order. Particles behind the last
    /// whole batch are neither integrated nor kept.
    pub fn integrate_all<K: Fn(u64, Particle) -> Motion>(
        &self,
        particles: &Vec<Particle>,
        frame: u64,
        limit: Scalar,
        kernel: &K,
    ) -> (kept: Vec<Particle>)
        requires
            forall|t: u64, p: Particle| call_requires(*kernel, (t, p)),
        ensures
            exists|motions: Seq<Motion>|
                {
                    &&& #[trigger] outcomes_of(
                        *kernel,
                        frame,
                        particles@.take(
                            covered(particles@.len(), self.spec_batch_size() as nat) as int,
                        ),
                        motions,
                    )
                    &&& kept@ == survivors(
                        particles@.take(
                            covered(particles@.len(), self.spec_batch_size() as nat) as int,
                        ),
                        motions,
                        limit,
                    )
                },
            forall|i: int|
                0 <= i < kept@.len() ==> (#[trigger] kept@[i]).updated && !kept@[i].age.spec_ge(
                    kept@[i].lifetime,
                ),
    {
        let size: usize = self.batch_size();
        let total: usize = particles.len();
        let plan: Vec<Batch> = self.plan(total);
        let mut kept: Vec<Particle> = Vec::with_capacity(total);
        let ghost mut motions: Seq<Motion> = Seq::empty();
        let mut n: usize = 0;
        while n < plan.len()
            invariant
                size == self.spec_batch_size(),
                size > 0,
                total == particles@.len(),
                plan@.len() == particles@.len() / (size as nat),
                forall|k: int|
                    0 <= k < plan@.len() ==> (#[trigger] plan@[k]).start == k * size && plan@[k].end
                        == plan@[k].start + size,
                n <= plan@.len(),
                n * size <= particles@.len(),
                forall|t: u64, p: Particle| call_requires(*kernel, (t, p)),
                outcomes_of(*kernel, frame, particles@.take(n * size), motions),
                kept@ == survivors(particles@.take(n * size), motions, limit),
            decreases plan@.len() - n,
        {
            let batch: Batch = plan[n];
            let mut part: Vec<Particle> = integrate_batch(particles, batch, frame, limit, kernel);
            proof {
                let len = particles@.len();
                assert(n * size + size <= len && (n + 1) * size == n * size + size)
                    by (nonlinear_arith)
                    requires
                        n < len / (size as nat),
                        size > 0,
                ;
                let done = particles@.take(n * size);
                let slice = batch.slice(particles@);
                let batch_motions = choose|m: Seq<Motion>|
                    {
                        &&& #[trigger] outcomes_of(*kernel, frame, slice, m)
                        &&& part@ == survivors(slice, m, limit)
                    };
                assert(particles@.take((n + 1) * size) =~= done + slice);
                lemma_survivors_of_parts(done, motions, slice, batch_motions, limit);
                motions = motions + batch_motions;
            }
            kept.append(&mut part);
            n += 1;
        }
        proof {
            let whole = covered(particles@.len(), size as nat);
            lemma_all_survivors_are_within_lifetime(particles@.take(whole as int), motions, limit);
        }
        kept
    }
}

/// The whole batches of a population hold all of it but the last
/// `len % batch_size` particles.
pub proof fn lemma_covered(len: nat, batch_size: nat)
    requires
        batch_size > 0,
    ensures
        covered(len, batch_size) == len - len % batch_size,
        covered(len, batch_size) <= len,
        len % batch_size == 0 ==> covered(len, batch_size) == len,
        len < batch_size ==> covered(len, batch_size) == 0,
{
    lemma_fundamental_div_mod(len as int, batch_size as int);
    assert((len / batch_size) * batch_size == batch_size * (len / batch_size))
        by (nonlinear_arith);
    if len < batch_size {
        assert(len / batch_size == 0) by (nonlinear_arith)
            requires
                0 <= len < batch_size,
        ;
    }
}

} // verus!
