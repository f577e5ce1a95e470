use rand::rngs::StdRng;
use rand::Rng;
use scoped_threadpool::Pool;
use std::sync::Mutex;
use vector_fields::config::Config;
use vector_fields::particle::{Birth, Color, Motion, Particle, Point};
use vector_fields::scalar::Scalar;
use vector_fields::scheduler::integrate_batch;
use vector_fields::system::ParticleSystem;

fn s(x: f32) -> Scalar {
    Scalar::from_bits(x.to_bits())
}

fn f(x: Scalar) -> f32 {
    f32::from_bits(x.bits)
}

fn draw(_t: u32, mut r: StdRng) -> Birth {
    let lifetime = r.gen::<f32>() * 8.0;
    Birth {
        position: Point { re: s(r.gen::<f32>()), im: s(r.gen::<f32>()) },
        color: Color { r: s(0.8), g: s(0.45), b: s(0.23) },
        override_draw: s(r.gen::<f32>()),
        lifetime: s(lifetime),
        age: s(r.gen::<f32>() * lifetime),
    }
}

fn kernel(t: u64, p: Particle) -> Motion {
    let re = f(p.position.re) + 0.125;
    Motion {
        age: s(f(p.age) + 1.0),
        position: Point { re: s(re), im: p.position.im },
        field_norm_sqr: s(re * re * (1.0 + t as f32)),
    }
}

fn step_on_a_pool(system: &mut ParticleSystem) {
    let scheduler = system.scheduler();
    let mut pool = Pool::new(scheduler.workers());
    let merged: Mutex<Vec<Particle>> = Mutex::new(Vec::new());
    pool.scoped(|scope| {
        let merged = &merged;
        let particles = system.particles();
        let frame = system.frame();
        let limit = system.config().divergence_limit;
        for batch in scheduler.plan(particles.len()) {
            scope.execute(move || {
                let mut kept = integrate_batch(particles, batch, frame, limit, &kernel);
                merged.lock().unwrap().append(&mut kept);
            });
        }
    });
    system.advance(merged.into_inner().unwrap(), &draw);
}

fn sorted(particles: &[Particle]) -> Vec<Particle> {
    let mut v = particles.to_vec();
    v.sort_by_key(|p| {
        (p.position.re.bits, p.position.im.bits, p.age.bits, p.lifetime.bits, p.color.r.bits)
    });
    v
}

#[test]
fn a_step_on_a_pool_keeps_the_particles_of_a_step_on_one_thread() {
    let mut config = Config::standard();
    config.initial_particles = 4096;
    config.particles_per_frame = 100;
    config.batch_size = 64;
    config.workers = 4;
    config.divergence_limit = s(4.0);
    let mut pooled = ParticleSystem::new(config, &draw).unwrap();
    let mut single = ParticleSystem::new(config, &draw).unwrap();
    assert_eq!(pooled.particles(), single.particles());
    step_on_a_pool(&mut pooled);
    single.update(&kernel, &draw);
    assert_eq!(pooled.frame(), 1);
    assert_eq!(pooled.particles().len(), single.particles().len());
    assert!(single.particles().len() < 4096);
    assert_eq!(sorted(pooled.particles()), sorted(single.particles()));
    let survivors = single.particles().len() - 100;
    assert_eq!(pooled.particles()[survivors..], single.particles()[survivors..]);
}
