use vector_fields::config::{Config, DEFAULT_DIVERGENCE_LIMIT_BITS};
use vector_fields::particle::{
    background, BACKGROUND_BLUE_BITS, BACKGROUND_GREEN_BITS, BACKGROUND_RED_BITS,
    OVERRIDE_THRESHOLD_BITS,
};

#[test]
fn standard_settings() {
    let config = Config::standard();
    assert_eq!(config.initial_particles, 40000);
    assert_eq!(config.particles_per_frame, 1000);
    assert_eq!(config.workers, 8);
    assert_eq!(config.batch_size, 512);
    assert_eq!(config.loop_frames, 1);
    assert!(!config.saving);
    assert_eq!(config.divergence_limit.bits, DEFAULT_DIVERGENCE_LIMIT_BITS);
}

#[test]
fn default_divergence_limit_is_four_times_the_squared_scale() {
    let scale = 5.0f32;
    assert_eq!(DEFAULT_DIVERGENCE_LIMIT_BITS, (4.0 * scale * scale).to_bits());
    assert_eq!(f32::from_bits(DEFAULT_DIVERGENCE_LIMIT_BITS), 100.0);
}

#[test]
fn colour_constants_encode_their_literals() {
    assert_eq!(OVERRIDE_THRESHOLD_BITS, 0.3f32.to_bits());
    assert_eq!(BACKGROUND_RED_BITS, 0.08f32.to_bits());
    assert_eq!(BACKGROUND_GREEN_BITS, 0.085f32.to_bits());
    assert_eq!(BACKGROUND_BLUE_BITS, 0.12f32.to_bits());
    let c = background();
    assert_eq!(f32::from_bits(c.r.bits), 0.08);
    assert_eq!(f32::from_bits(c.g.bits), 0.085);
    assert_eq!(f32::from_bits(c.b.bits), 0.12);
}
