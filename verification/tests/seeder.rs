use rand::rngs::StdRng;
use rand::{Rng, RngCore, SeedableRng};
use vector_fields::particle::{Birth, Color, Particle, Point};
use vector_fields::scalar::Scalar;
use vector_fields::seeder::{slot_of, ParticleSeeder, SEED_MASK};

fn s(x: f32) -> Scalar {
    Scalar::from_bits(x.to_bits())
}

/// A draw that takes everything from the generator, and the age from the
/// frame it is handed.
fn plain_draw(t: u32, mut rng: StdRng) -> Birth {
    let re: f32 = rng.gen();
    let im: f32 = rng.gen();
    Birth {
        position: Point { re: s(re), im: s(im) },
        color: Color { r: s(0.5), g: s(0.25), b: s(0.125) },
        override_draw: s(1.0),
        lifetime: s(10.0),
        age: s(t as f32),
    }
}

#[test]
fn key_of_first_particle_is_the_mask() {
    let seeder = ParticleSeeder::new(1);
    assert_eq!(seeder.key(0, 0), SEED_MASK);
    assert_eq!(seeder.key(0, 0), 0xCBF52D44320FD62A);
}

#[test]
fn key_packs_frame_and_slot_before_masking() {
    let seeder = ParticleSeeder::new(1);
    assert_eq!(seeder.key(0, 1), 0xCBF52D44320FD62B);
    assert_eq!(seeder.key(1, 0), 0xCBF52D45320FD62A);
    assert_eq!(seeder.key(3, 7), ((3u64 << 32) | 7) ^ 0xCBF52D44320FD62A);
    assert_eq!(seeder.key(u32::MAX, u32::MAX), !0xCBF52D44320FD62Au64);
    assert_eq!(seeder.key(0x1234_5678, 0x9abc_def0), 0x1234_5678_9abc_def0 ^ SEED_MASK);
}

#[test]
fn effective_frame_is_the_frame_without_a_loop() {
    for loop_frames in [0u32, 1] {
        let seeder = ParticleSeeder::new(loop_frames);
        for frame in [0u32, 1, 2, 119, 120, u32::MAX] {
            assert_eq!(seeder.effective_frame(frame), frame);
        }
    }
}

#[test]
fn effective_frame_wraps_at_the_loop_length() {
    let seeder = ParticleSeeder::new(120);
    assert_eq!(seeder.effective_frame(0), 0);
    assert_eq!(seeder.effective_frame(119), 119);
    assert_eq!(seeder.effective_frame(120), 0);
    assert_eq!(seeder.effective_frame(121), 1);
    assert_eq!(seeder.effective_frame(359), 119);
    assert_eq!(seeder.effective_frame(u32::MAX), u32::MAX % 120);
}

#[test]
fn keys_repeat_with_the_loop_length() {
    for loop_frames in [2u32, 3, 120, 1000] {
        let seeder = ParticleSeeder::new(loop_frames);
        for frame in [0u32, 1, 5, 119, 120, 4000] {
            for slot in [0u32, 1, 999, u32::MAX] {
                assert_eq!(seeder.key(frame, slot), seeder.key(frame + loop_frames, slot));
                assert_eq!(seeder.key(frame, slot), seeder.key(frame + 3 * loop_frames, slot));
            }
        }
    }
}

#[test]
fn keys_do_not_repeat_without_a_loop() {
    let seeder = ParticleSeeder::new(1);
    assert_ne!(seeder.key(0, 0), seeder.key(1, 0));
    assert_ne!(seeder.key(0, 0), seeder.key(120, 0));
}

#[test]
fn keys_differ_between_slots_and_frames() {
    let seeder = ParticleSeeder::new(50);
    let mut seen = std::collections::HashSet::new();
    for frame in 0u32..50 {
        for slot in 0u32..40 {
            assert!(seen.insert(seeder.key(frame, slot)));
        }
    }
    assert_eq!(seen.len(), 2000);
}

#[test]
fn slots_wrap_after_four_billion_particles() {
    assert_eq!(slot_of(0), 0);
    assert_eq!(slot_of(999), 999);
    assert_eq!(slot_of(u32::MAX as usize), u32::MAX);
    if usize::BITS > 32 {
        let big = (1u64 << 32) as usize;
        assert_eq!(slot_of(big), 0);
        assert_eq!(slot_of(big + 5), 5);
    }
}

#[test]
fn generator_is_the_standard_generator_seeded_with_the_key() {
    let seeder = ParticleSeeder::new(1);
    for (frame, slot) in [(0u32, 0u32), (0, 1), (1, 0), (77, 999)] {
        let mut ours = seeder.generator(frame, slot);
        let mut theirs = StdRng::seed_from_u64(seeder.key(frame, slot));
        for _ in 0..16 {
            assert_eq!(ours.next_u32(), theirs.next_u32());
        }
    }
}

#[test]
fn generator_depends_on_the_key() {
    let seeder = ParticleSeeder::new(1);
    let a = seeder.generator(0, 0).next_u64();
    let b = seeder.generator(0, 1).next_u64();
    let c = seeder.generator(1, 0).next_u64();
    assert_ne!(a, b);
    assert_ne!(a, c);
    assert_ne!(b, c);
    assert_ne!(a, seeder.key(0, 0));
}

#[test]
fn generator_is_deterministic() {
    let seeder = ParticleSeeder::new(120);
    assert_eq!(seeder.generator(5, 9), seeder.generator(5, 9));
    assert_eq!(seeder.generator(5, 9), seeder.generator(125, 9));
    assert_ne!(seeder.generator(5, 9), seeder.generator(6, 9));
}

#[test]
fn seed_hands_the_draw_the_effective_frame_and_the_generator() {
    let seeder = ParticleSeeder::new(100);
    let p = seeder.seed(205, 3, &plain_draw);
    let mut rng = StdRng::seed_from_u64(seeder.key(5, 3));
    let re: f32 = rng.gen();
    let im: f32 = rng.gen();
    assert_eq!(
        p,
        Particle {
            color: Color { r: s(0.5), g: s(0.25), b: s(0.125) },
            position: Point { re: s(re), im: s(im) },
            old_position: Point { re: s(re), im: s(im) },
            lifetime: s(10.0),
            age: s(5.0),
            updated: false,
        }
    );
}

#[test]
fn seeding_is_deterministic() {
    let seeder = ParticleSeeder::new(1);
    for (frame, slot) in [(0u32, 0u32), (3, 14), (1000, 999)] {
        let a = seeder.seed(frame, slot, &plain_draw);
        let b = seeder.seed(frame, slot, &plain_draw);
        assert_eq!(a, b);
    }
    assert_ne!(seeder.seed(0, 0, &plain_draw), seeder.seed(0, 1, &plain_draw));
}

#[test]
fn spawn_appends_one_particle_per_slot_in_order() {
    let seeder = ParticleSeeder::new(1);
    let first = seeder.seed(9, 100, &plain_draw);
    let mut into = vec![first];
    seeder.spawn(4, 5, &plain_draw, &mut into);
    assert_eq!(into.len(), 6);
    assert_eq!(into[0], first);
    for k in 0..5u32 {
        assert_eq!(into[1 + k as usize], seeder.seed(4, k, &plain_draw));
    }
    seeder.spawn(4, 0, &plain_draw, &mut into);
    assert_eq!(into.len(), 6);
}

#[test]
fn newcomers_repeat_with_the_loop_length() {
    let seeder = ParticleSeeder::new(30);
    let mut early = Vec::new();
    let mut late = Vec::new();
    seeder.spawn(7, 50, &plain_draw, &mut early);
    seeder.spawn(37, 50, &plain_draw, &mut late);
    assert_eq!(early, late);
    let mut other = Vec::new();
    seeder.spawn(8, 50, &plain_draw, &mut other);
    assert_ne!(early, other);
}
