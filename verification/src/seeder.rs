//! Deterministic seeding: every particle is born from a pseudo-random
//! generator whose seed is a function of the frame and of the particle's
//! slot in that frame, so that births do not depend on scheduling.

use vstd::prelude::*;
use vstd::arithmetic::div_mod::lemma_mod_add_multiples_vanish;
use rand::rngs::StdRng;
use rand::SeedableRng;
use crate::particle::{Birth, Particle};

verus! {

/// The constant that every packed (frame, slot) pair is combined with.
pub const SEED_MASK: u64 = 0xCBF5_2D44_320F_D62A;

/// `rand::rngs::StdRng`, carried through as an opaque value.
#[verifier::external_type_specification]
#[verifier::external_body]
pub struct ExStdRng(rand::rngs::StdRng);

/// The generator that `StdRng::seed_from_u64` builds from `key`, in the
/// version of `rand` that the crate is built with.
pub uninterp spec fn seeded_generator(key: u64) -> StdRng;

/// Calls `rand::SeedableRng::seed_from_u64` on `rand::rngs::StdRng`.
///
/// The construction expands the key into the generator's seed by a fixed
/// recurrence and reads nothing else, so the result is a function of `key`:
/// the same on every call, thread and machine. It never fails. Which
/// algorithm stands behind `StdRng` is a matter of the version of `rand`;
/// nothing is claimed of it here.
#[verifier::external_body]
fn generator_from_key(key: u64) -> (rng: StdRng)
    ensures
        rng == seeded_generator(key),
{
    StdRng::seed_from_u64(key)
}

/// The slot that the `k`-th particle of a frame is seeded in: slots wrap
/// around after 2^32 particles.
pub open spec fn spec_slot_of(k: nat) -> u32 {
    (k % 0x1_0000_0000) as u32
}

/// The slot of the `k`-th particle of a frame.
pub fn slot_of(k: usize) -> (slot: u32)
    ensures
        slot == spec_slot_of(k as nat),
{
    (k as u64 % 0x1_0000_0000) as u32
}

/// The particles that a sequence of births gives, in order.
pub open spec fn newborn(births: Seq<Birth>) -> Seq<Particle> {
    births.map_values(|b: Birth| Particle::spec_born(b))
}

/// Derives seeding keys and generators from (frame, slot) pairs.
///
/// With a loop length above 1 the frame index is taken modulo that length,
/// which makes the births of an animation repeat with that period.
#[derive(Clone, Copy, Debug, PartialEq, Eq, Structural)]
pub struct ParticleSeeder {
    pub loop_frames: u32,
}

impl ParticleSeeder {
    /// The frame index that keys are derived from.
    pub open spec fn spec_effective_frame(self, frame: u32) -> u32 {
        if self.loop_frames > 1 {
            frame % self.loop_frames
        } else {
            frame
        }
    }

    /// The effective frame in the high half, the slot in the low half.
    pub open spec fn packed(frame: u32, slot: u32) -> u64 {
        (frame * 0x1_0000_0000 + slot) as u64
    }

    /// The 64-bit seed of the particle born at `frame` in `slot`.
    pub open spec fn spec_key(self, frame: u32, slot: u32) -> u64 {
        Self::packed(self.spec_effective_frame(frame), slot) ^ SEED_MASK
    }

    /// A seeder for an animation of the given loop length; 0 and 1 both
    /// mean that it never loops.
    pub fn new(loop_frames: u32) -> (seeder: ParticleSeeder)
        ensures
            seeder.loop_frames == loop_frames,
    {
        ParticleSeeder { loop_frames }
    }

    #[verifier::when_used_as_spec(spec_effective_frame)]
    pub fn effective_frame(self, frame: u32) -> (t: u32)
        ensures
            t == self.spec_effective_frame(frame),
    {
        if self.loop_frames > 1 {
            frame % self.loop_frames
        } else {
            frame
        }
    }

    #[verifier::when_used_as_spec(spec_key)]
    pub fn key(self, frame: u32, slot: u32) -> (k: u64)
        ensures
            k == self.spec_key(frame, slot),
    {
        let t: u32 = self.effective_frame(frame);
        let packed: u64 = ((t as u64) << 32) | (slot as u64);
        assert(packed == t * 0x1_0000_0000 + slot) by (bit_vector)
            requires
                packed == ((t as u64) << 32) | (slot as u64),
        ;
        packed ^ SEED_MASK
    }

    /// Whether `birth` is what `draw` may return for the particle at
    /// (`frame`, `slot`): `draw` is handed the effective frame and the
    /// generator seeded with the particle's key.
    pub open spec fn draws<S: Fn(u32, StdRng) -> Birth>(
        self,
        draw: S,
        frame: u32,
        slot: u32,
        birth: Birth,
    ) -> bool {
        call_ensures(
            draw,
            (self.spec_effective_frame(frame), seeded_generator(self.spec_key(frame, slot))),
            birth,
        )
    }

    /// Whether `births` is what `draw` may return for the first `count`
    /// particles of `frame`, one birth per slot.
    pub open spec fn draws_all<S: Fn(u32, StdRng) -> Birth>(
        self,
        draw: S,
        frame: u32,
        count: nat,
        births: Seq<Birth>,
    ) -> bool {
        &&& births.len() == count
        &&& forall|k: int|
            0 <= k < count ==> #[trigger] self.draws(
                draw,
                frame,
                spec_slot_of(k as nat),
                births[k],
            )
    }

    /// The generator from which the particle at (`frame`, `slot`) is drawn.
    pub fn generator(self, frame: u32, slot: u32) -> (rng: StdRng)
        ensures
            rng == seeded_generator(self.spec_key(frame, slot)),
    {
        generator_from_key(self.key(frame, slot))
    }

    /// The particle born at (`frame`, `slot`): `draw` turns the particle's
    /// generator into a birth, once.
    pub fn seed<S: Fn(u32, StdRng) -> Birth>(self, frame: u32, slot: u32, draw: &S) -> (p:
        Particle)
        requires
            forall|t: u32, g: StdRng| call_requires(*draw, (t, g)),
        ensures
            exists|birth: Birth|
                {
                    &&& #[trigger] self.draws(*draw, frame, slot, birth)
                    &&& p == Particle::spec_born(birth)
                },
    {
        let rng: StdRng = self.generator(frame, slot);
        let birth: Birth = draw(self.effective_frame(frame), rng);
        assert(self.draws(*draw, frame, slot, birth));
        Particle::born(birth)
    }

    /// Appends the first `count` particles of `frame` to `into`, in slot
    /// order.
    pub fn spawn<S: Fn(u32, StdRng) -> Birth>(
        self,
        frame: u32,
        count: usize,
        draw: &S,
        into: &mut Vec<Particle>,
    )
        requires
            forall|t: u32, g: StdRng| call_requires(*draw, (t, g)),
        ensures
            exists|births: Seq<Birth>|
                {
                    &&& #[trigger] self.draws_all(*draw, frame, count as nat, births)
                    &&& final(into)@ == old(into)@ + newborn(births)
                },
    {
        let ghost mut births: Seq<Birth> = Seq::empty();
        let mut k: usize = 0;
        while k < count
            invariant
                k <= count,
                forall|t: u32, g: StdRng| call_requires(*draw, (t, g)),
                self.draws_all(*draw, frame, k as nat, births),
                into@ == old(into)@ + newborn(births),
            decreases count - k,
        {
            let p: Particle = self.seed(frame, slot_of(k), draw);
            proof {
                let birth = choose|birth: Birth|
                    {
                        &&& #[trigger] self.draws(*draw, frame, spec_slot_of(k as nat), birth)
                        &&& p == Particle::spec_born(birth)
                    };
                births = births.push(birth);
            }
            into.push(p);
            k += 1;
        }
    }
}

/// Keys repeat with the loop length: a frame and the frame one period later
/// seed every slot alike.
pub proof fn lemma_key_repeats_every_loop(seeder: ParticleSeeder, frame: u32, slot: u32)
    requires
        seeder.loop_frames > 1,
        frame + seeder.loop_frames <= u32::MAX,
    ensures
        seeder.spec_effective_frame((frame + seeder.loop_frames) as u32)
            == seeder.spec_effective_frame(frame),
        seeder.spec_key((frame + seeder.loop_frames) as u32, slot) == seeder.spec_key(frame, slot),
{
    lemma_mod_add_multiples_vanish(frame as int, seeder.loop_frames as int);
}

/// Births repeat with the loop length: whatever may be born in a frame may
/// be born one period later, and nothing else.
pub proof fn lemma_births_repeat_every_loop<S: Fn(u32, StdRng) -> Birth>(
    seeder: ParticleSeeder,
    draw: S,
    frame: u32,
    count: nat,
    births: Seq<Birth>,
)
    requires
        seeder.loop_frames > 1,
        frame + seeder.loop_frames <= u32::MAX,
    ensures
        seeder.draws_all(draw, frame, count, births) <==> seeder.draws_all(
            draw,
            (frame + seeder.loop_frames) as u32,
            count,
            births,
        ),
{
    let later = (frame + seeder.loop_frames) as u32;
    assert forall|slot: u32, birth: Birth|
        seeder.draws(draw, frame, slot, birth) == seeder.draws(draw, later, slot, birth) by {
        lemma_key_repeats_every_loop(seeder, frame, slot);
    }
}

/// Two particles share a key only if they share the effective frame and the
/// slot.
pub proof fn lemma_keys_are_distinct(
    seeder: ParticleSeeder,
    frame: u32,
    slot: u32,
    other_frame: u32,
    other_slot: u32,
)
    requires
        seeder.spec_key(frame, slot) == seeder.spec_key(other_frame, other_slot),
    ensures
        seeder.spec_effective_frame(frame) == seeder.spec_effective_frame(other_frame),
        slot == other_slot,
{
    let a = ParticleSeeder::packed(seeder.spec_effective_frame(frame), slot);
    let b = ParticleSeeder::packed(seeder.spec_effective_frame(other_frame), other_slot);
    assert(a == b) by (bit_vector)
        requires
            a ^ SEED_MASK == b ^ SEED_MASK,
    ;
}

/// Seeding is as deterministic as the draw: where `draw` returns one birth
/// per frame and generator, a frame and a slot determine the birth, and with
/// it the particle.
pub proof fn lemma_seeding_is_deterministic<S: Fn(u32, StdRng) -> Birth>(
    seeder: ParticleSeeder,
    draw: S,
    frame: u32,
    slot: u32,
    first: Birth,
    second: Birth,
)
    requires
        forall|t: u32, g: StdRng, a: Birth, b: Birth|
            call_ensures(draw, (t, g), a) && call_ensures(draw, (t, g), b) ==> a == b,
        seeder.draws(draw, frame, slot, first),
        seeder.draws(draw, frame, slot, second),
    ensures
        first == second,
        Particle::spec_born(first) == Particle::spec_born(second),
{
}

/// The same for all the particles of a frame: where `draw` returns one
/// birth per frame and generator, a frame determines its newcomers.
pub proof fn lemma_newcomers_are_deterministic<S: Fn(u32, StdRng) -> Birth>(
    seeder: ParticleSeeder,
    draw: S,
    frame: u32,
    count: nat,
    first: Seq<Birth>,
    second: Seq<Birth>,
)
    requires
        forall|t: u32, g: StdRng, a: Birth, b: Birth|
            call_ensures(draw, (t, g), a) && call_ensures(draw, (t, g), b) ==> a == b,
        seeder.draws_all(draw, frame, count, first),
        seeder.draws_all(draw, frame, count, second),
    ensures
        first == second,
        newborn(first) == newborn(second),
{
    assert forall|k: int| 0 <= k < count implies first[k] == second[k] by {
        assert(seeder.draws(draw, frame, spec_slot_of(k as nat), first[k]));
        assert(seeder.draws(draw, frame, spec_slot_of(k as nat), second[k]));
    }
}

} // verus!
