//! Particles and the values exchanged with the numerical kernel.

use vstd::prelude::*;
use crate::scalar::Scalar;

verus! {

/// Encoding of the draw threshold under which a newborn particle takes the
/// background colour instead of its field-derived one (0.3).
pub const OVERRIDE_THRESHOLD_BITS: u32 = 0x3e99_999a;

/// Encoding of the red channel of the background colour (0.08).
pub const BACKGROUND_RED_BITS: u32 = 0x3da3_d70a;

/// Encoding of the green channel of the background colour (0.085).
pub const BACKGROUND_GREEN_BITS: u32 = 0x3dae_147b;

/// Encoding of the blue channel of the background colour (0.12).
pub const BACKGROUND_BLUE_BITS: u32 = 0x3df5_c28f;

/// A position in the plane of the field: real and imaginary part.
#[derive(Clone, Copy, Debug, PartialEq, Eq, Structural)]
pub struct Point {
    pub re: Scalar,
    pub im: Scalar,
}

/// Three colour channels.
#[derive(Clone, Copy, Debug, PartialEq, Eq, Structural)]
pub struct Color {
    pub r: Scalar,
    pub g: Scalar,
    pub b: Scalar,
}

/// What was drawn for a particle about to be born.
#[derive(Clone, Copy, Debug, PartialEq, Eq, Structural)]
pub struct Birth {
    pub position: Point,
    /// The colour derived from the field at `position`.
    pub color: Color,
    /// The unit draw that decides whether `color` is overridden.
    pub override_draw: Scalar,
    pub lifetime: Scalar,
    pub age: Scalar,
}

/// What the numerical kernel computed for one particle in one frame.
#[derive(Clone, Copy, Debug, PartialEq, Eq, Structural)]
pub struct Motion {
    /// The particle's age after the frame.
    pub age: Scalar,
    /// The particle's position after the frame's substeps.
    pub position: Point,
    /// Squared magnitude of the field at `position`.
    pub field_norm_sqr: Scalar,
}

/// The trail of one particle since it was last drawn.
#[derive(Clone, Copy, Debug, PartialEq, Eq, Structural)]
pub struct Segment {
    pub from: Point,
    pub to: Point,
    pub color: Color,
    pub age: Scalar,
    pub lifetime: Scalar,
}

/// One particle of the simulation.
#[derive(Clone, Copy, Debug, PartialEq, Eq, Structural)]
pub struct Particle {
    pub color: Color,
    pub position: Point,
    /// Where the particle was when it was last drawn.
    pub old_position: Point,
    pub lifetime: Scalar,
    pub age: Scalar,
    /// Whether the particle has been integrated at least once.
    pub updated: bool,
}

/// The colour forced on a fixed share of all newborn particles.
pub open spec fn spec_background() -> Color {
    Color {
        r: Scalar { bits: BACKGROUND_RED_BITS },
        g: Scalar { bits: BACKGROUND_GREEN_BITS },
        b: Scalar { bits: BACKGROUND_BLUE_BITS },
    }
}

#[verifier::when_used_as_spec(spec_background)]
pub fn background() -> (c: Color)
    ensures
        c == spec_background(),
{
    Color {
        r: Scalar::from_bits(BACKGROUND_RED_BITS),
        g: Scalar::from_bits(BACKGROUND_GREEN_BITS),
        b: Scalar::from_bits(BACKGROUND_BLUE_BITS),
    }
}

/// Whether a value is a number that is not negative.
pub open spec fn is_non_negative(x: Scalar) -> bool {
    x.spec_ge(Scalar { bits: 0 })
}

impl Birth {
    /// Whether the override draw falls under the threshold.
    pub open spec fn overridden(self) -> bool {
        self.override_draw.spec_lt(Scalar { bits: OVERRIDE_THRESHOLD_BITS })
    }

    /// Age and lifetime are numbers, and neither is negative.
    pub open spec fn well_formed(self) -> bool {
        is_non_negative(self.age) && is_non_negative(self.lifetime)
    }
}

impl Motion {
    /// The age is a number that is not negative.
    pub open spec fn well_formed(self) -> bool {
        is_non_negative(self.age)
    }

    /// The field is reported as not finite wherever the position is not
    /// finite, as it is by every field that is computed from the position.
    pub open spec fn is_faithful(self) -> bool {
        !self.position.re.spec_is_finite() || !self.position.im.spec_is_finite()
            ==> !self.field_norm_sqr.spec_is_finite()
    }
}

impl Particle {
    /// Age and lifetime are numbers, and neither is negative.
    pub open spec fn well_formed(self) -> bool {
        is_non_negative(self.age) && is_non_negative(self.lifetime)
    }

    /// The particle that a birth gives: not yet integrated, with an empty
    /// trail, in the background colour if the override draw says so.
    pub open spec fn spec_born(birth: Birth) -> Particle {
        Particle {
            color: if birth.overridden() {
                spec_background()
            } else {
                birth.color
            },
            position: birth.position,
            old_position: birth.position,
            lifetime: birth.lifetime,
            age: birth.age,
            updated: false,
        }
    }

    /// Whether the particle leaves the simulation after a frame that moved
    /// it by `motion`: it has reached its lifetime, or the field at its new
    /// position has reached `limit` or is not finite.
    pub open spec fn retires(self, motion: Motion, limit: Scalar) -> bool {
        ||| motion.age.spec_ge(self.lifetime)
        ||| motion.field_norm_sqr.spec_ge(limit)
        ||| !motion.field_norm_sqr.spec_is_finite()
    }

    /// The particle after a frame that moved it by `motion`. Colour,
    /// lifetime and the start of the trail are untouched.
    pub open spec fn advanced(self, motion: Motion) -> Particle {
        Particle {
            color: self.color,
            position: motion.position,
            old_position: self.old_position,
            lifetime: self.lifetime,
            age: motion.age,
            updated: true,
        }
    }

    /// One frame of a particle's life: `None` when it retires.
    pub open spec fn spec_integrate(self, motion: Motion, limit: Scalar) -> Option<Particle> {
        if self.retires(motion, limit) {
            None
        } else {
            Some(self.advanced(motion))
        }
    }

    /// The segment to draw for the particle, if it is to be drawn at all.
    pub open spec fn spec_segment(self) -> Option<Segment> {
        if self.updated {
            Some(
                Segment {
                    from: self.old_position,
                    to: self.position,
                    color: self.color,
                    age: self.age,
                    lifetime: self.lifetime,
                },
            )
        } else {
            None
        }
    }

    /// The particle once its segment has been handed out: the trail
    /// restarts at the current position.
    pub open spec fn spec_drawn(self) -> Particle {
        if self.updated {
            Particle {
                color: self.color,
                position: self.position,
                old_position: self.position,
                lifetime: self.lifetime,
                age: self.age,
                updated: self.updated,
            }
        } else {
            self
        }
    }

    #[verifier::when_used_as_spec(spec_born)]
    pub fn born(birth: Birth) -> (p: Particle)
        ensures
            p == Particle::spec_born(birth),
    {
        let color = if birth.override_draw.lt(Scalar::from_bits(OVERRIDE_THRESHOLD_BITS)) {
            background()
        } else {
            birth.color
        };
        Particle {
            color,
            position: birth.position,
            old_position: birth.position,
            lifetime: birth.lifetime,
            age: birth.age,
            updated: false,
        }
    }

    #[verifier::when_used_as_spec(spec_integrate)]
    pub fn integrate(self, motion: Motion, limit: Scalar) -> (next: Option<Particle>)
        ensures
            next == self.spec_integrate(motion, limit),
    {
        if motion.age.ge(self.lifetime) || motion.field_norm_sqr.ge(limit)
            || !motion.field_norm_sqr.is_finite() {
            None
        } else {
            Some(
                Particle {
                    color: self.color,
                    position: motion.position,
                    old_position: self.old_position,
                    lifetime: self.lifetime,
                    age: motion.age,
                    updated: true,
                },
            )
        }
    }

    #[verifier::when_used_as_spec(spec_segment)]
    pub fn segment(self) -> (s: Option<Segment>)
        ensures
            s == self.spec_segment(),
    {
        if self.updated {
            Some(
                Segment {
                    from: self.old_position,
                    to: self.position,
                    color: self.color,
                    age: self.age,
                    lifetime: self.lifetime,
                },
            )
        } else {
            None
        }
    }
}

/// A particle that survives a frame has not reached its lifetime: its age is
/// not above it, and where both are numbers it is strictly below.
pub proof fn lemma_survivor_is_within_lifetime(
    before: Particle,
    motion: Motion,
    limit: Scalar,
    after: Particle,
)
    requires
        before.spec_integrate(motion, limit) == Some(after),
    ensures
        !after.age.spec_ge(after.lifetime),
        !after.lifetime.spec_lt(after.age),
        !after.age.spec_is_nan() && !after.lifetime.spec_is_nan() ==> after.age.spec_lt(
            after.lifetime,
        ),
{
}

/// A particle is retired as soon as the field at its new position is not
/// finite (an infinity or a NaN), whatever its age and the limit.
pub proof fn lemma_non_finite_field_retires(before: Particle, motion: Motion, limit: Scalar)
    requires
        !motion.field_norm_sqr.spec_is_finite(),
    ensures
        before.spec_integrate(motion, limit) is None,
{
}

/// A particle that survives a frame saw a finite field below the limit, was
/// marked as updated, and kept its colour, its lifetime and the start of its
/// trail.
pub proof fn lemma_survivor_is_sound(
    before: Particle,
    motion: Motion,
    limit: Scalar,
    after: Particle,
)
    requires
        before.spec_integrate(motion, limit) == Some(after),
    ensures
        motion.field_norm_sqr.spec_is_finite(),
        !motion.field_norm_sqr.spec_ge(limit),
        after.updated,
        after.color == before.color,
        after.lifetime == before.lifetime,
        after.old_position == before.old_position,
        after.position == motion.position,
        after.age == motion.age,
{
}

/// A particle is as well formed as the birth that it comes from.
pub proof fn lemma_born_is_well_formed(birth: Birth)
    ensures
        Particle::spec_born(birth).well_formed() <==> birth.well_formed(),
        Particle::spec_born(birth).old_position == Particle::spec_born(birth).position,
        !Particle::spec_born(birth).updated,
{
}

/// A well-formed particle that survives a frame in which its age stayed a
/// number that is not negative is well formed after it, and strictly younger
/// than its lifetime.
pub proof fn lemma_survivor_is_well_formed(
    before: Particle,
    motion: Motion,
    limit: Scalar,
    after: Particle,
)
    requires
        before.well_formed(),
        motion.well_formed(),
        before.spec_integrate(motion, limit) == Some(after),
    ensures
        after.well_formed(),
        after.age.spec_lt(after.lifetime),
{
}

/// No position that is not finite outlives a frame, as long as the kernel
/// reports the field there as not finite.
pub proof fn lemma_survivor_has_a_finite_position(
    before: Particle,
    motion: Motion,
    limit: Scalar,
    after: Particle,
)
    requires
        motion.is_faithful(),
        before.spec_integrate(motion, limit) == Some(after),
    ensures
        after.position.re.spec_is_finite(),
        after.position.im.spec_is_finite(),
{
}

} // verus!
