use solsys::body::{
    calculate_hill_radius, get_initial_position_and_velocity, point_in_circle, CelestialBody,
    CelestialBodyType, DisplayColor,
};
use solsys::gravity::{apply_gravity_asteroids, apply_gravity_to_celestial_bodies, gravity_vel};
use solsys::math::{cadd64, emod64, icbrt, isqrt, muldiv};
use solsys::movable::Movable;
use solsys::predict::simulate_hill_radius;
use solsys::scenario::{initialize, ScenarioRng};
use solsys::ship::{Ship, ShipState};
use solsys::timer::Timer;
use solsys::trig::{angle_diff_mdeg, atan2_mdeg, cos_mdeg, rotate_vec2, sin_mdeg};
use solsys::ui::get_scale_delta;
use solsys::vec2::Vec2i;
use solsys::world::World;

fn v(x: i64, y: i64) -> Vec2i {
    Vec2i { x, y }
}

fn test_body(pos: Vec2i, mass: i64, radius: i64, t: CelestialBodyType) -> CelestialBody {
    CelestialBody {
        mov: Movable::new(pos, v(0, 0), mass, 0),
        radius,
        cb_type: t,
        hill_radius: Some(0),
        color: DisplayColor::Gray,
        name: String::from("b"),
    }
}

#[test]
fn integer_roots() {
    assert_eq!(isqrt(0), 0);
    assert_eq!(isqrt(15), 3);
    assert_eq!(isqrt(16), 4);
    assert_eq!(isqrt(1_000_000_000_000), 1_000_000);
    assert_eq!(icbrt(26), 2);
    assert_eq!(icbrt(27), 3);
}

#[test]
fn clamped_arithmetic() {
    assert_eq!(cadd64(i64::MAX, 1), i64::MAX);
    assert_eq!(cadd64(2, 3), 5);
    assert_eq!(muldiv(7, 3, 2), 10);
    assert_eq!(muldiv(-7, 3, 2), -10);
    assert_eq!(emod64(-30, 360), 330);
    assert_eq!(emod64(370, 360), 10);
}

#[test]
fn trig_values() {
    assert_eq!(sin_mdeg(0), 0);
    assert_eq!(sin_mdeg(90_000), 1_000_000);
    assert_eq!(sin_mdeg(180_000), 0);
    assert_eq!(sin_mdeg(-90_000), -1_000_000);
    assert_eq!(cos_mdeg(0), 1_000_000);
    assert_eq!(cos_mdeg(180_000), -1_000_000);
    // the half-turn approximation is close away from the exact points
    let s45 = sin_mdeg(45_000);
    assert!((s45 - 707_107).abs() < 2_000, "sin 45 deg was {}", s45);
}

#[test]
fn atan2_and_angle_diff() {
    assert_eq!(atan2_mdeg(0, 1000), 0);
    assert_eq!(atan2_mdeg(1000, 0), 90_000);
    assert_eq!(atan2_mdeg(0, -1000), 180_000);
    assert_eq!(atan2_mdeg(-1000, 0), -90_000);
    assert_eq!(angle_diff_mdeg(350_000, 10_000), 20_000);
    assert_eq!(angle_diff_mdeg(10_000, 350_000), 20_000);
    assert_eq!(angle_diff_mdeg(180_000, 0), 180_000);
}

#[test]
fn rotation_of_axis_vector() {
    let r = rotate_vec2(&v(1_000_000, 0), 90_000);
    assert_eq!(r.x, 0);
    assert_eq!(r.y, 1_000_000);
}

// The two deltas point toward the other body and their magnitudes scale
// inversely with the masses.
#[test]
fn pairwise_gravity_thirds_law() {
    let a = v(0, 0);
    let b = v(1000, 0);
    let (da, db) = gravity_vel(&a, 1, &b, 1000, 1000);
    // the light body at the origin is pulled toward +x, a thousand times
    // as hard as the heavy one is pulled back
    assert_eq!(da, v(50_000_000, 0));
    assert_eq!(db, v(-50_000, 0));
    assert_eq!(da.x * 1, -db.x * 1000);
}

#[test]
fn gravity_coincident_positions_zero_force() {
    let p = v(7, 9);
    let (da, db) = gravity_vel(&p, 5, &p, 50, 1000);
    assert_eq!(da, v(0, 0));
    assert_eq!(db, v(0, 0));
}

#[test]
fn all_pairs_each_pair_once() {
    let mut bodies = vec![
        test_body(v(0, 0), 1, 1, CelestialBodyType::Star),
        test_body(v(1000, 0), 1000, 1, CelestialBodyType::Planet),
    ];
    let idxs = vec![0usize, 1usize];
    apply_gravity_to_celestial_bodies(&mut bodies, &idxs, 1000);
    assert_eq!(bodies[0].mov.vel, v(50_000_000, 0));
    assert_eq!(bodies[1].mov.vel, v(-50_000, 0));
    // positions and masses untouched by the velocity pass
    assert_eq!(bodies[0].mov.pos, v(0, 0));
    assert_eq!(bodies[1].mov.mass, 1000);
}

// Two minor bodies at the same spot feel only the parent, never each
// other; the parent feels nothing.
#[test]
fn asteroids_only_feel_their_parent() {
    let mut bodies = vec![
        test_body(v(0, 0), 1000, 1, CelestialBodyType::Star),
        test_body(v(1_000_000, 0), 50, 1, CelestialBodyType::Asteroid),
        test_body(v(1_000_000, 0), 50, 1, CelestialBodyType::Asteroid),
    ];
    apply_gravity_asteroids(&mut bodies, 1, 0, 20);
    assert_eq!(bodies[1].mov.vel, v(-1, 0));
    assert_eq!(bodies[2].mov.vel, v(-1, 0));
    assert_eq!(bodies[0].mov.vel, v(0, 0));
}

// Save, mutate, load restores the exact triple.
#[test]
fn checkpoint_round_trip() {
    let mut m = Movable::new(v(1, 2), v(300, 400), 5, 6);
    m.save();
    m.update(1000);
    m.vel = v(-1, -1);
    m.rot = 99;
    m.update(500);
    m.load();
    assert_eq!(m.pos, v(1, 2));
    assert_eq!(m.vel, v(300, 400));
    assert_eq!(m.rot, 6);
    assert_eq!(m.mass, 5);
}

#[test]
fn ship_checkpoint_round_trip() {
    let mut s = Ship::new(v(10, 20), v(1, 1), 500_000);
    s.save();
    s.mov.update(1000);
    s.state = ShipState::Destroyed;
    s.load();
    assert_eq!(s.mov.pos, v(10, 20));
    assert_eq!(s.state, ShipState::InSpace);
    assert_eq!(s.store, ShipState::InSpace);
}

#[test]
fn timer_edge_is_single_shot() {
    let mut t = Timer::new(100);
    t.update(60);
    assert!(!t.is_just_over());
    assert!(!t.is_over());
    t.update(60);
    assert!(t.is_just_over());
    t.update(60);
    assert!(!t.is_just_over());
}

#[test]
fn point_in_circle_is_strict() {
    assert!(!point_in_circle(&v(3, 4), &v(0, 0), 5));
    assert!(point_in_circle(&v(3, 4), &v(0, 0), 6));
}

// Just inside the hill radius is dominated, the boundary and outside are
// not; a major body uses the enlarged radius.
#[test]
fn hill_sphere_boundary_is_exclusive() {
    let mut b = test_body(v(0, 0), 1, 1, CelestialBodyType::Asteroid);
    b.hill_radius = Some(5);
    assert!(!b.pos_in_hill_radius(&v(3, 4)));
    b.hill_radius = Some(6);
    assert!(b.pos_in_hill_radius(&v(3, 4)));
    let mut m = test_body(v(0, 0), 1, 1, CelestialBodyType::Planet);
    m.hill_radius = Some(5);
    assert!(!m.pos_in_hill_radius(&v(9, 12)));
    assert!(m.pos_in_hill_radius(&v(9, 11)));
}

#[test]
fn hill_radius_formula() {
    let hr = calculate_hill_radius(&v(0, 0), 1, &v(1000, 0), 3);
    assert_eq!(hr, 1000);
}

#[test]
fn circular_orbit_placement() {
    let (pos, vel) = get_initial_position_and_velocity(20, 1_000_000, 0);
    assert_eq!(pos, v(1_000_000, 0));
    assert_eq!(vel, v(0, 1000));
}

#[test]
fn thrust_and_fuel() {
    let mut s = Ship::new(v(0, 0), v(0, 0), 1_000_000);
    s.throttle_up(1000);
    assert_eq!(s.mov.vel, v(10_000, 0));
    assert_eq!(s.fuel, 990_000);
    s.turn_right(1000);
    assert_eq!(s.mov.rot, 90_000);
    s.turn_left(500);
    assert_eq!(s.mov.rot, 45_000);
}

#[test]
fn out_of_fuel_thrust_is_a_no_op() {
    let mut s = Ship::new(v(0, 0), v(0, 0), 0);
    s.throttle_up(1000);
    assert_eq!(s.mov.vel, v(0, 0));
    assert_eq!(s.fuel, 0);
}

// A slow, aligned approach lands; too fast destroys; too crooked
// destroys.
#[test]
fn landing_accepts_slow_aligned_touchdown() {
    let bodies = vec![test_body(v(0, 0), 1000, 100_000, CelestialBodyType::Planet)];
    let mut s = Ship::new(v(104_000, 0), v(-100, 0), 700_000);
    s.process_collision(&bodies, 20);
    assert_eq!(s.state, ShipState::Landed(0, v(0, 0)));
    // a survivable landing refills the tanks and snaps the heading
    assert_eq!(s.fuel, 700_000);
    assert_eq!(s.mov.rot, 0);
}

#[test]
fn landing_above_terminal_velocity_destroys() {
    let bodies = vec![test_body(v(0, 0), 1000, 100_000, CelestialBodyType::Planet)];
    let mut s = Ship::new(v(104_000, 0), v(-31_000, 0), 700_000);
    s.process_collision(&bodies, 20);
    assert_eq!(s.state, ShipState::Destroyed);
}

#[test]
fn landing_misaligned_destroys() {
    let bodies = vec![test_body(v(0, 0), 1000, 100_000, CelestialBodyType::Planet)];
    let mut s = Ship::new(v(104_000, 0), v(-100, 0), 700_000);
    s.mov.rot = 90_000;
    s.process_collision(&bodies, 20);
    assert_eq!(s.state, ShipState::Destroyed);
}

// A landed ship with zero accumulated takeoff velocity stays landed
// through the next collision pass.
#[test]
fn no_spontaneous_liftoff() {
    let bodies = vec![test_body(v(0, 0), 1000, 100_000, CelestialBodyType::Planet)];
    let mut s = Ship::new(v(100_000, 0), v(0, 0), 700_000);
    s.state = ShipState::Landed(0, v(0, 0));
    s.process_collision(&bodies, 20);
    assert_eq!(s.state, ShipState::Landed(0, v(0, 0)));
}

#[test]
fn takeoff_when_thrust_clears_the_surface() {
    let bodies = vec![test_body(v(0, 0), 1000, 100_000, CelestialBodyType::Planet)];
    let mut s = Ship::new(v(104_900, 0), v(0, 0), 700_000);
    // accumulated takeoff velocity large enough to project clear
    s.state = ShipState::Landed(0, v(50_000, 0));
    s.process_collision(&bodies, 20);
    assert_eq!(s.state, ShipState::InSpace);
    assert_eq!(s.mov.vel, v(50_000, 0));
}

#[test]
fn ship_gravity_scopes_by_hill_sphere() {
    let mut bodies = vec![
        test_body(v(0, 0), 1000, 1, CelestialBodyType::Planet),
        test_body(v(10_000_000, 0), 1000, 1, CelestialBodyType::Planet),
    ];
    bodies[0].hill_radius = Some(1_000_000);
    bodies[1].hill_radius = Some(1);
    let idxs = vec![0usize, 1usize];
    let mut s = Ship::new(v(500_000, 0), v(0, 0), 1_000);
    s.apply_gravity(&mut bodies, &idxs, 20);
    // only the first body dominates the ship's position
    assert_eq!(s.in_hill_radius_of, vec![0usize]);
    assert!(s.mov.vel.x < 0);
    assert_eq!(bodies[1].mov.vel, v(0, 0));
    assert!(bodies[0].mov.vel.x >= 0);
}

#[test]
fn landed_ship_co_moves_with_anchor() {
    let mut bodies = vec![test_body(v(0, 0), 1000, 100_000, CelestialBodyType::Planet)];
    bodies[0].mov.vel = v(123, -456);
    let idxs = vec![0usize];
    let mut s = Ship::new(v(100_000, 0), v(0, 0), 1_000);
    s.state = ShipState::Landed(0, v(0, 0));
    s.apply_gravity(&mut bodies, &idxs, 20);
    assert_eq!(s.mov.vel, v(123, -456));
}

// Identical seeds rebuild bit-identical worlds.
#[test]
fn identical_seeds_identical_worlds() {
    let w1 = initialize(3, v(660_000, 380_000));
    let w2 = initialize(3, v(660_000, 380_000));
    assert_eq!(w1.bodies.len(), w2.bodies.len());
    assert_eq!(w1.n_major, 12);
    assert_eq!(w1.parent, 0);
    for (a, b) in w1.bodies.iter().zip(w2.bodies.iter()) {
        assert_eq!(a.mov.pos, b.mov.pos);
        assert_eq!(a.mov.vel, b.mov.vel);
        assert_eq!(a.mov.mass, b.mov.mass);
        assert_eq!(a.radius, b.radius);
        assert_eq!(a.hill_radius, b.hill_radius);
        assert_eq!(a.cb_type, b.cb_type);
        assert_eq!(a.color, b.color);
        assert_eq!(a.name, b.name);
    }
    assert_eq!(w1.ships[0].mov.pos, w2.ships[0].mov.pos);
    assert_eq!(w1.ships[0].mov.vel, w2.ships[0].mov.vel);
    assert_eq!(w1.bodies[0].name, "Praxidike");
    assert_eq!(w1.bodies[3].name, "Ganymede");
    assert!(w1.bodies[12].name.starts_with("Ast 0/"));
    assert!(w1.bodies.len() >= 12 + 360);
}

// Running the predictor and discarding its output leaves the following
// live ticks byte-identical to never having run it.
#[test]
fn predictor_leaves_live_state_untouched() {
    let mut w1 = initialize(7, v(0, 0));
    let mut w2 = initialize(7, v(0, 0));
    w1.tick(20);
    w2.tick(20);
    let _trail = simulate_hill_radius(&mut w1.ships, &mut w1.bodies, 50, 500);
    for _ in 0..3 {
        w1.tick(20);
        w2.tick(20);
    }
    for (a, b) in w1.bodies.iter().zip(w2.bodies.iter()) {
        assert_eq!(a.mov.pos, b.mov.pos);
        assert_eq!(a.mov.vel, b.mov.vel);
        assert_eq!(a.mov.rot, b.mov.rot);
        assert_eq!(a.mov.mass, b.mov.mass);
    }
    assert_eq!(w1.ships[0].mov.pos, w2.ships[0].mov.pos);
    assert_eq!(w1.ships[0].mov.vel, w2.ships[0].mov.vel);
    assert_eq!(w1.ships[0].state, w2.ships[0].state);
    assert_eq!(w1.ships[0].fuel, w2.ships[0].fuel);
}

#[test]
fn ticks_move_the_planets() {
    let mut w = initialize(5, v(0, 0));
    let p1_before = w.bodies[1].mov.pos;
    for _ in 0..10 {
        w.tick(20);
    }
    assert_ne!(w.bodies[1].mov.pos, p1_before);
    // the arena layout never changes during a run
    assert_eq!(w.n_major, 12);
    assert_eq!(w.ships.len(), 1);
}

#[test]
fn predictor_produces_a_trail() {
    let mut w = initialize(11, v(0, 0));
    w.tick(20);
    let trail = simulate_hill_radius(&mut w.ships, &mut w.bodies, 40, 500);
    if !w.ships[0].in_hill_radius_of.is_empty() {
        assert!(!trail.is_empty());
    }
}

// A rollout that runs into a captured body stops early with one
// impact-colored sample, and still restores the live state exactly.
#[test]
fn predictor_stops_at_predicted_impact_and_restores() {
    let mut planet = test_body(v(0, 0), 1000, 100_000, CelestialBodyType::Planet);
    planet.hill_radius = Some(10_000_000);
    let mut bodies = vec![planet];
    let mut ship = Ship::new(v(300_000, 0), v(-200_000, 0), 1_000);
    ship.in_hill_radius_of = vec![0usize];
    let mut ships = vec![ship];
    let trail = simulate_hill_radius(&mut ships, &mut bodies, 10, 500);
    assert!(!trail.is_empty());
    assert_eq!(trail.last().unwrap().color, DisplayColor::Orange);
    // the rollout left every live field exactly as it found it
    assert_eq!(ships[0].mov.pos, v(300_000, 0));
    assert_eq!(ships[0].mov.vel, v(-200_000, 0));
    assert_eq!(ships[0].state, ShipState::InSpace);
    assert_eq!(bodies[0].mov.pos, v(0, 0));
    assert_eq!(bodies[0].mov.vel, v(0, 0));
}

#[test]
fn deterministic_generator_matches_itself() {
    let mut r1 = ScenarioRng::new(42);
    let mut r2 = ScenarioRng::new(42);
    for _ in 0..16 {
        assert_eq!(r1.gen_range(0, 1000), r2.gen_range(0, 1000));
    }
    let mut r3 = ScenarioRng::new(43);
    let mut any_diff = false;
    let mut r4 = ScenarioRng::new(42);
    for _ in 0..16 {
        if r3.gen_range(0, 1000) != r4.gen_range(0, 1000) {
            any_diff = true;
        }
    }
    assert!(any_diff);
}

#[test]
fn display_metadata() {
    assert_eq!(CelestialBodyType::Star.min_display_radius(), 15_000);
    assert_eq!(CelestialBodyType::Asteroid.min_display_radius(), 1_000);
    assert_eq!(get_scale_delta(250_000), 100_000);
    assert_eq!(get_scale_delta(5_000), 500);
}

#[test]
fn state_descriptions() {
    let bodies = vec![test_body(v(0, 0), 1, 1, CelestialBodyType::Planet)];
    let mut s = Ship::new(v(0, 0), v(0, 0), 1);
    assert_eq!(s.describe(&bodies), "In space");
    s.state = ShipState::Landed(0, v(0, 0));
    assert_eq!(s.describe(&bodies), "Landed on b");
    s.state = ShipState::Destroyed;
    assert_eq!(s.describe(&bodies), "Destroyed");
}

#[test]
fn decimal_rendering() {
    assert_eq!(solsys::generators::dec_string(0), "0");
    assert_eq!(solsys::generators::dec_string(123), "123");
    assert_eq!(solsys::generators::dec_string(359), "359");
}

#[test]
fn world_construction_from_parts() {
    let bodies = vec![
        test_body(v(0, 0), 1000, 100, CelestialBodyType::Star),
        test_body(v(1_000_000, 0), 10, 10, CelestialBodyType::Asteroid),
    ];
    let ships = vec![Ship::new(v(500_000, 0), v(0, 0), 1_000)];
    let mut w = World { bodies, n_major: 1, parent: 0, ships };
    w.tick(20);
    assert_eq!(w.bodies.len(), 2);
}
