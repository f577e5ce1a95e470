use vector_fields::particle::{background, Birth, Color, Motion, Particle, Point, Segment};
use vector_fields::scalar::Scalar;

fn s(x: f32) -> Scalar {
    Scalar::from_bits(x.to_bits())
}

fn point(re: f32, im: f32) -> Point {
    Point { re: s(re), im: s(im) }
}

fn birth(override_draw: f32) -> Birth {
    Birth {
        position: point(1.5, -2.5),
        color: Color { r: s(0.9), g: s(0.5), b: s(0.23) },
        override_draw: s(override_draw),
        lifetime: s(80.0),
        age: s(12.5),
    }
}

fn particle(age: f32, lifetime: f32) -> Particle {
    Particle {
        color: Color { r: s(0.9), g: s(0.5), b: s(0.23) },
        position: point(1.0, 2.0),
        old_position: point(0.5, 0.25),
        lifetime: s(lifetime),
        age: s(age),
        updated: false,
    }
}

fn motion(age: f32, d: f32) -> Motion {
    Motion { age: s(age), position: point(1.01, 2.02), field_norm_sqr: s(d) }
}

#[test]
fn born_keeps_the_drawn_colour_above_the_threshold() {
    for draw in [0.3f32, 0.300_000_04, 0.5, 0.999_999_94, 1.0] {
        let p = Particle::born(birth(draw));
        assert_eq!(
            p,
            Particle {
                color: Color { r: s(0.9), g: s(0.5), b: s(0.23) },
                position: point(1.5, -2.5),
                old_position: point(1.5, -2.5),
                lifetime: s(80.0),
                age: s(12.5),
                updated: false,
            }
        );
    }
}

#[test]
fn born_takes_the_background_colour_below_the_threshold() {
    for draw in [0.0f32, -0.0, 0.1, 0.299_999_97] {
        let p = Particle::born(birth(draw));
        assert_eq!(p.color, background());
        assert_eq!(p.color, Color { r: s(0.08), g: s(0.085), b: s(0.12) });
        assert_eq!(p.position, point(1.5, -2.5));
        assert_eq!(p.old_position, point(1.5, -2.5));
        assert_eq!(p.lifetime, s(80.0));
        assert_eq!(p.age, s(12.5));
        assert!(!p.updated);
    }
}

#[test]
fn born_keeps_the_drawn_colour_on_an_unordered_draw() {
    let p = Particle::born(birth(f32::NAN));
    assert_eq!(p.color, Color { r: s(0.9), g: s(0.5), b: s(0.23) });
}

#[test]
fn integrate_moves_a_survivor_and_marks_it() {
    let before = particle(3.0, 10.0);
    let after = before.integrate(motion(4.0, 99.0), s(100.0));
    assert_eq!(
        after,
        Some(Particle {
            color: Color { r: s(0.9), g: s(0.5), b: s(0.23) },
            position: point(1.01, 2.02),
            old_position: point(0.5, 0.25),
            lifetime: s(10.0),
            age: s(4.0),
            updated: true,
        })
    );
}

#[test]
fn integrate_retires_at_the_lifetime() {
    let limit = s(100.0);
    assert!(particle(8.5, 10.0).integrate(motion(9.5, 1.0), limit).is_some());
    assert!(particle(8.99, 10.0).integrate(motion(9.999_999, 1.0), limit).is_some());
    assert_eq!(particle(9.0, 10.0).integrate(motion(10.0, 1.0), limit), None);
    assert_eq!(particle(9.5, 10.0).integrate(motion(10.5, 1.0), limit), None);
    assert_eq!(particle(0.0, 0.0).integrate(motion(1.0, 1.0), limit), None);
}

#[test]
fn integrate_retires_at_the_divergence_limit() {
    let limit = s(100.0);
    let p = particle(1.0, 10.0);
    assert!(p.integrate(motion(2.0, 0.0), limit).is_some());
    assert!(p.integrate(motion(2.0, 99.999_99), limit).is_some());
    assert_eq!(p.integrate(motion(2.0, 100.0), limit), None);
    assert_eq!(p.integrate(motion(2.0, 100.000_01), limit), None);
    assert_eq!(p.integrate(motion(2.0, f32::MAX), limit), None);
}

#[test]
fn integrate_retires_on_a_field_that_is_not_finite() {
    let p = particle(1.0, 10.0);
    for limit in [100.0f32, f32::INFINITY, f32::NAN, f32::MAX] {
        for d in [f32::NAN, -f32::NAN, f32::INFINITY, f32::NEG_INFINITY] {
            assert_eq!(p.integrate(motion(2.0, d), s(limit)), None, "{} {}", d, limit);
        }
    }
}

#[test]
fn integrate_with_the_limit_at_infinity_retires_by_age_only() {
    let limit = s(f32::INFINITY);
    let p = particle(1.0, 10.0);
    assert!(p.integrate(motion(2.0, f32::MAX), limit).is_some());
    assert_eq!(p.integrate(motion(10.0, 0.0), limit), None);
}

#[test]
fn integrate_never_leaves_a_survivor_past_its_lifetime() {
    let ages = [0.0f32, 0.5, 1.0, 9.999, 10.0, 10.001, 159.0, 160.0, f32::INFINITY];
    let lifetimes = [0.0f32, 0.25, 1.0, 10.0, 159.99];
    for age in ages {
        for lifetime in lifetimes {
            let next = particle(0.0, lifetime).integrate(motion(age, 1.0), s(100.0));
            assert_eq!(next.is_some(), age < lifetime);
            if let Some(p) = next {
                assert!(f32::from_bits(p.age.bits) < f32::from_bits(p.lifetime.bits));
            }
        }
    }
}

#[test]
fn segment_is_drawn_for_integrated_particles_only() {
    let fresh = particle(3.0, 10.0);
    assert_eq!(fresh.segment(), None);
    let moved = fresh.integrate(motion(4.0, 1.0), s(100.0)).unwrap();
    assert_eq!(
        moved.segment(),
        Some(Segment {
            from: point(0.5, 0.25),
            to: point(1.01, 2.02),
            color: Color { r: s(0.9), g: s(0.5), b: s(0.23) },
            age: s(4.0),
            lifetime: s(10.0),
        })
    );
}
