use particles::particle::{Particle, Rgba, Vec2, BIRTH_ALPHA, FULL, MAX_LIFT, MAX_RISE, PARTICLE_SIDE, SCALE};
use particles::world::{World, WorldError};

fn particle_with_alpha(x: i64, a: u32) -> Particle {
    let mut p = Particle::launched(x, 960 * SCALE, -SCALE, 100_000);
    p.color.a = a;
    p
}

#[test]
fn spawn_three_then_tick_from_a_thousand() {
    let mut world = World::new(1280 * SCALE, 960 * SCALE, 42).unwrap();
    world.add_shapes(1000);
    assert_eq!(world.particles().len(), 1000);
    world.update_with(3);
    assert_eq!(world.particles().len(), 1003);
    assert_eq!(world.tick(), 1);
    for p in world.particles() {
        assert_eq!(p.color.a, 985_050_000);
    }
}

#[test]
fn remove_two_from_five_with_faded_head() {
    let ps: Vec<Particle> = vec![
        particle_with_alpha(0, 10_000_000),
        particle_with_alpha(1, 500_000_000),
        particle_with_alpha(2, 900_000_000),
        particle_with_alpha(3, 10_000_000),
        particle_with_alpha(4, 990_000_000),
    ];
    let mut world = World::with_particles(1280 * SCALE, 960 * SCALE, 1, ps).unwrap();
    world.remove_shapes(-2);
    let left = world.particles();
    assert_eq!(left.len(), 3);
    assert_eq!(left[0].position.x, 2);
    assert_eq!(left[1].position.x, 3);
    assert_eq!(left[2].position.x, 4);
}

#[test]
fn forced_negative_draw_retires_then_ages() {
    let ps: Vec<Particle> = (0..5).map(|i| particle_with_alpha(i, 10_000_000 + i as u32)).collect();
    let mut world = World::with_particles(100, 100, 1, ps).unwrap();
    world.update_with(-2);
    assert_eq!(world.particles().len(), 3);
    assert_eq!(world.particles()[0].position.x, 2);
    assert_eq!(world.tick(), 1);
}

#[test]
fn head_goes_even_when_opaque_and_others_faded() {
    let ps: Vec<Particle> = vec![particle_with_alpha(7, 990_000_000), particle_with_alpha(8, 1)];
    let mut world = World::with_particles(10, 10, 3, ps).unwrap();
    world.remove_shapes(1);
    assert_eq!(world.particles().len(), 1);
    assert_eq!(world.particles()[0].position.x, 8);
}

#[test]
fn removing_from_empty_is_a_no_op() {
    let mut world = World::new(10, 10, 0).unwrap();
    world.remove_shapes(-3);
    assert!(world.particles().is_empty());
    world.update_with(-3);
    assert!(world.particles().is_empty());
    assert_eq!(world.tick(), 1);
}

#[test]
fn removing_more_than_present_empties() {
    let ps: Vec<Particle> = vec![particle_with_alpha(0, 5), particle_with_alpha(1, 5)];
    let mut world = World::with_particles(10, 10, 0, ps).unwrap();
    world.remove_shapes(3);
    assert!(world.particles().is_empty());
}

#[test]
fn add_negative_count_spawns_its_magnitude() {
    let mut world = World::new(10, 10, 0).unwrap();
    world.add_shapes(-4);
    assert_eq!(world.particles().len(), 4);
    world.add_shapes(0);
    assert_eq!(world.particles().len(), 4);
}

#[test]
fn newborns_lie_in_documented_ranges() {
    let width = 1280 * SCALE;
    let height = 960 * SCALE;
    let mut world = World::new(width, height, 9).unwrap();
    world.add_shapes(500);
    let mut distinct_x = false;
    let first_x = world.particles()[0].position.x;
    for p in world.particles() {
        assert!(0 <= p.position.x && p.position.x <= width);
        assert_eq!(p.position.y, height);
        assert_eq!(p.velocity.x, 0);
        assert!(-MAX_RISE <= p.velocity.y && p.velocity.y < 0);
        assert_eq!(p.acceleration.x, 0);
        assert!(0 <= p.acceleration.y && p.acceleration.y < MAX_LIFT);
        assert_eq!(p.width, PARTICLE_SIDE);
        assert_eq!(p.height, PARTICLE_SIDE);
        assert_eq!(p.color, Rgba { r: FULL, g: FULL, b: FULL, a: BIRTH_ALPHA });
        if p.position.x != first_x {
            distinct_x = true;
        }
    }
    assert!(distinct_x);
}

#[test]
fn zero_width_spawns_on_the_left_edge() {
    let mut world = World::new(0, 5, 11).unwrap();
    world.add_shapes(20);
    for p in world.particles() {
        assert_eq!(p.position.x, 0);
        assert_eq!(p.position.y, 5);
    }
}

#[test]
fn same_seed_gives_same_world() {
    let mut a = World::new(1000, 1000, 77).unwrap();
    let mut b = World::new(1000, 1000, 77).unwrap();
    for _ in 0..50 {
        a.update();
        b.update();
    }
    assert_eq!(a.particles(), b.particles());
    assert_eq!(a.tick(), 50);
}

#[test]
fn random_ticks_keep_population_and_alpha_laws() {
    let mut world = World::new(1280 * SCALE, 960 * SCALE, 5).unwrap();
    world.add_shapes(10);
    let mut changed = false;
    for t in 0..300u64 {
        let before: Vec<Particle> = world.particles().to_vec();
        world.update();
        let after = world.particles();
        let delta = after.len() as i64 - before.len() as i64;
        assert!((-3..=3).contains(&delta));
        if delta != 0 {
            changed = true;
        }
        assert_eq!(world.tick(), t + 1);
        for p in after {
            assert!(p.color.a > 0 && p.color.a <= FULL);
        }
        let (gone, kept) = if after.len() < before.len() {
            (before.len() - after.len(), after.len())
        } else {
            (0, before.len())
        };
        for i in 0..kept {
            assert!(after[i].color.a <= before[i + gone].color.a);
        }
    }
    assert!(changed);
}

#[test]
fn negative_bounds_are_refused() {
    assert_eq!(World::new(-1, 10, 0).err(), Some(WorldError::NegativeBounds));
    assert_eq!(World::new(10, -1, 0).err(), Some(WorldError::NegativeBounds));
    let ps = vec![particle_with_alpha(0, 0)];
    assert_eq!(World::with_particles(-1, -1, 0, ps).err(), Some(WorldError::NegativeBounds));
}

#[test]
fn out_of_range_alpha_is_refused() {
    let ps = vec![particle_with_alpha(0, 10), particle_with_alpha(0, 0)];
    assert_eq!(World::with_particles(1, 1, 0, ps).err(), Some(WorldError::AlphaOutOfRange));
    let ps = vec![particle_with_alpha(0, FULL + 1)];
    assert_eq!(World::with_particles(1, 1, 0, ps).err(), Some(WorldError::AlphaOutOfRange));
    let ps = vec![particle_with_alpha(0, FULL)];
    let w = World::with_particles(3, 4, 0, ps).unwrap();
    assert_eq!(w.width(), 3);
    assert_eq!(w.height(), 4);
    assert_eq!(w.tick(), 0);
}

#[test]
fn particle_update_exact_values() {
    let mut p = Particle::launched(5, 100, -2_000_000, 100_000);
    p.update();
    assert_eq!(p.velocity, Vec2 { x: 0, y: -1_900_000 });
    assert_eq!(p.position, Vec2 { x: 5, y: 100 - 1_900_000 });
    assert_eq!(p.acceleration, Vec2 { x: 0, y: 70_000 });
    assert_eq!(p.color.a, 985_050_000);
    p.update();
    assert_eq!(p.velocity.y, -1_830_000);
    assert_eq!(p.position.y, 100 - 1_900_000 - 1_830_000);
    assert_eq!(p.acceleration.y, 49_000);
    assert_eq!(p.color.a, 980_124_750);
    assert_eq!(p.color.r, FULL);
}

#[test]
fn damping_rounds_toward_zero_both_ways() {
    let mut p = Particle::launched(0, 0, 0, 15);
    p.acceleration.x = -15;
    p.update();
    assert_eq!(p.acceleration.y, 10);
    assert_eq!(p.acceleration.x, -10);
    assert_eq!(p.velocity.x, -15);
}

#[test]
fn acceleration_decays_geometrically_to_zero() {
    let mut p = Particle::launched(0, 0, 0, 149_999);
    let mut bound: f64 = 149_999.0;
    for _ in 0..60 {
        let before = p.acceleration.y;
        p.update();
        bound *= 0.7;
        assert!(p.acceleration.y >= 0);
        assert!(p.acceleration.y <= before);
        assert!((p.acceleration.y as f64) <= bound + 1e-9);
    }
    assert_eq!(p.acceleration.y, 0);
}

#[test]
fn faint_alpha_never_reaches_zero() {
    let mut p = Particle::launched(0, 0, 0, 0);
    p.color.a = 3;
    for _ in 0..10 {
        p.update();
        assert_eq!(p.color.a, 3);
    }
    p.color.a = 250;
    p.update();
    assert_eq!(p.color.a, 249);
    let mut q = Particle::launched(0, 0, 0, 0);
    let mut last = q.color.a;
    for _ in 0..2000 {
        q.update();
        assert!(q.color.a <= last && q.color.a > 0);
        last = q.color.a;
    }
    assert_eq!(last, 43_933);
}

#[test]
fn motion_pins_at_the_integer_limits() {
    let mut p = Particle::launched(0, i64::MAX - 1, 5, 0);
    p.update();
    assert_eq!(p.position.y, i64::MAX);
    let mut q = Particle::launched(0, i64::MIN + 1, -5, 0);
    q.velocity.y = i64::MIN;
    q.acceleration.y = -1;
    q.update();
    assert_eq!(q.velocity.y, i64::MIN);
    assert_eq!(q.position.y, i64::MIN);
}

#[test]
fn non_negative_bounds_always_build() {
    let w = World::new(0, 0, 5).unwrap();
    assert_eq!(w.tick(), 0);
    assert!(w.particles().is_empty());
    let w = World::new(1280 * SCALE, 960 * SCALE, 5).unwrap();
    assert_eq!(w.width(), 1280 * SCALE);
    assert_eq!(w.height(), 960 * SCALE);
}

#[test]
fn removal_leaves_the_random_source_alone() {
    let mut a = World::new(1000, 1000, 21).unwrap();
    let mut b = World::new(1000, 1000, 21).unwrap();
    a.add_shapes(4);
    b.add_shapes(4);
    a.remove_shapes(-3);
    b.remove_shapes(-3);
    a.remove_shapes(2);
    a.add_shapes(2);
    b.add_shapes(2);
    assert_eq!(a.particles().len(), 2);
    assert_eq!(a.particles()[0].position, b.particles()[1].position);
    assert_eq!(a.particles()[1].position, b.particles()[2].position);
}

#[test]
fn velocity_from_rest_settles_below_its_limit() {
    let lift = 149_999;
    let mut p = Particle::launched(0, 0, 0, lift);
    let mut last = 0;
    for _ in 0..100 {
        p.update();
        assert_eq!(p.velocity.x, 0);
        assert!(p.velocity.y >= last);
        assert!(p.velocity.y * 3 <= lift * 10);
        last = p.velocity.y;
    }
    assert_eq!(last, 499_947);
}
