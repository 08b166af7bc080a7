//! End-to-end tests of the engine on concrete galaxies: one whole unit is
//! 1_000_000 grid units, so `2_000_000` below reads as the number two.

use galaxy::galaxy::{Galaxy, Planet};
use galaxy::galaxy_controller::{GalaxyController, GalaxySettings};

fn controller(planets: Vec<Planet>, gravity: i64, soft: i64, rest: i64) -> GalaxyController {
    GalaxyController::new(Galaxy::new(planets), GalaxySettings::new(gravity, soft, rest))
}

#[test]
fn test_intersect() {
    let p0 = Planet::default(0, 0, 2_000_000, 0);
    let p1 = Planet::default(1_000_000, 0, 2_000_000, 0);
    let p2 = Planet::default(3_000_000, 0, 2_000_000, 0);
    let p3 = Planet::default(5_000_000, 0, 1_000_000, 0);
    assert!(galaxy::galaxy_controller::intersect(&p0, &p1));
    assert!(galaxy::galaxy_controller::intersect(&p1, &p2));
    assert!(!galaxy::galaxy_controller::intersect(&p0, &p3));
}

#[test]
fn test_self_contribution_is_zero() {
    let p = Planet::default(5_000_000, 7_000_000, 2_000_000, 3);
    let g = GalaxyController::compute_single_gravitational_force(&p, &p, 50_000, 10_000);
    assert_eq!((g.x, g.y), (0, 0));
    let i = GalaxyController::compute_single_impulse(&p, &p, 200_000, 10_000);
    assert_eq!((i.x, i.y), (0, 0));
}

#[test]
fn test_intersect_is_symmetric() {
    let a = Planet::default(0, 0, 2_000_000, 0);
    let b = Planet::default(3_999_999, 1, 2_000_000, 1);
    let c = Planet::default(-5_000_000, 2_500_000, 1_000_000, 2);
    assert_eq!(
        galaxy::galaxy_controller::intersect(&a, &b),
        galaxy::galaxy_controller::intersect(&b, &a)
    );
    assert_eq!(
        galaxy::galaxy_controller::intersect(&a, &c),
        galaxy::galaxy_controller::intersect(&c, &a)
    );
}

#[test]
fn test_touching_discs_overlap() {
    // centers exactly r0 + r1 = 3 apart: the boundary counts as overlap
    let a = Planet::default(0, 0, 1_000_000, 0);
    let b = Planet::default(3_000_000, 0, 2_000_000, 1);
    assert!(galaxy::galaxy_controller::intersect(&a, &b));
    assert!(galaxy::galaxy_controller::intersect(&b, &a));
}

#[test]
fn test_separating_contact_no_impulse() {
    // overlapping discs moving apart along the contact normal draw no impulse
    let mut a = Planet::default(0, 0, 2_000_000, 0);
    let mut b = Planet::default(1_000_000, 0, 2_000_000, 1);
    a.velocity.x = -1_000_000;
    b.velocity.x = 1_000_000;
    assert!(galaxy::galaxy_controller::intersect(&a, &b));
    let i = GalaxyController::compute_single_impulse(&a, &b, 200_000, 10_000);
    assert_eq!((i.x, i.y), (0, 0));
}

#[test]
fn test_mass_from_radius() {
    // mass is the squared radius, inverse mass its reciprocal, on the grid
    let p = Planet::default(0, 0, 2_000_000, 0);
    assert_eq!(p.mass, 4_000_000);
    assert_eq!(p.imass, 250_000);
    let small = Planet::default(0, 0, 1_000, 1);
    assert_eq!(small.mass, 1);
    assert_eq!(small.imass, 1_000_000_000_000);
    let big = Planet::default(0, 0, 1_000_000_000, 2);
    assert_eq!(big.mass, 1_000_000_000_000);
    assert_eq!(big.imass, 1);
}

#[test]
fn test_checked_construction_rejects_bad_radii() {
    // a disc must have a positive, representable radius
    assert!(Planet::try_default(0, 0, 0, 0).is_none());
    assert!(Planet::try_default(0, 0, -1_000_000, 0).is_none());
    assert!(Planet::try_default(0, 0, 999, 0).is_none());
    assert!(Planet::try_default(0, 0, 1_000_000_001, 0).is_none());
    let p = Planet::try_default(7, -7, 1_000, 9).expect("the smallest radius is accepted");
    assert_eq!(p.r, 1_000);
    assert_eq!(p.id, 9);
    assert_eq!(p.mass, 1);
    assert!(Planet::try_default(0, 0, 1_000_000_000, 0).is_some());
}

#[test]
fn test_elastic_head_on_collision_exchanges_velocities() {
    // equal masses, restitution one, negligible softening: a head-on elastic
    // collision swaps the velocities along the contact normal
    let mut a = Planet::default(0, 0, 1_000_000, 0);
    let mut b = Planet::default(1_000_000, 0, 1_000_000, 1);
    a.velocity.x = 1_000_000;
    b.velocity.x = -1_000_000;
    let mut c = controller(vec![a, b], 0, 1, 1_000_000);
    c.update(100_000);
    let v0 = c.galaxy.planets[0].velocity.x;
    let v1 = c.galaxy.planets[1].velocity.x;
    // exact values on the grid; within 4 millionths of the full exchange
    assert_eq!(v0, -999_996);
    assert_eq!(v1, 999_996);
    assert!((v0 + 1_000_000).abs() <= 4 && (v1 - 1_000_000).abs() <= 4);
}

#[test]
fn test_gravity_pulls_bodies_together() {
    // two unit discs three units apart: no contact, pure attraction;
    // gravity 0.05, softening 0.01, restitution 0.2, dt 0.1
    let a = Planet::default(0, 0, 1_000_000, 0);
    let b = Planet::default(3_000_000, 0, 1_000_000, 1);
    let mut c = controller(vec![a, b], 50_000, 10_000, 200_000);
    c.update(100_000);
    let p0 = c.galaxy.planets[0];
    let p1 = c.galaxy.planets[1];
    // both velocities point toward the other body and are nonzero
    assert!(p0.velocity.x > 0 && p1.velocity.x < 0);
    assert_eq!(p0.velocity.x, 554);
    assert_eq!(p1.velocity.x, -554);
    assert_eq!(p0.velocity.y, 0);
    assert_eq!(p1.velocity.y, 0);
    // positions moved by velocity * dt: a tiny but strictly nonzero shift
    assert_eq!(p0.position.x, 55);
    assert_eq!(p1.position.x, 3_000_000 - 55);
    // no overlap at distance three, so no impulse was stored
    assert_eq!((p0.impulse.x, p0.impulse.y), (0, 0));
}

#[test]
fn test_inelastic_contact_kills_closing_speed() {
    // overlapping equal-mass discs approaching head on with restitution zero:
    // after the impulse pass the two velocities along the normal agree
    let mut a = Planet::default(0, 0, 2_000_000, 0);
    let mut b = Planet::default(1_000_000, 0, 2_000_000, 1);
    a.velocity.x = 1_000_000;
    b.velocity.x = -1_000_000;
    let mut c = controller(vec![a, b], 0, 1, 0);
    c.update(100_000);
    let v0 = c.galaxy.planets[0].velocity.x;
    let v1 = c.galaxy.planets[1].velocity.x;
    assert_eq!(v0, 2);
    assert_eq!(v1, -2);
    // no residual closing speed beyond a few grid units
    assert!((v0 - v1).abs() <= 4);
}

#[test]
fn test_equal_mass_impulses_are_opposite() {
    // equal masses: the two one-sided impulses cancel exactly, so the
    // collision pass conserves the pair's momentum
    let mut a = Planet::default(0, 0, 2_000_000, 0);
    let mut b = Planet::default(1_500_000, 700_000, 2_000_000, 1);
    a.velocity.x = 800_000;
    a.velocity.y = 100_000;
    b.velocity.x = -600_000;
    b.velocity.y = -50_000;
    let i0 = GalaxyController::compute_single_impulse(&a, &b, 200_000, 10_000);
    let i1 = GalaxyController::compute_single_impulse(&b, &a, 200_000, 10_000);
    assert_eq!((i0.x, i0.y), (-715_595, -333_943));
    assert_eq!((i1.x, i1.y), (715_595, 333_943));
    assert_eq!(i0.x, -i1.x);
    assert_eq!(i0.y, -i1.y);
}

#[test]
fn test_update_is_order_invariant() {
    let p0 = Planet::default(0, 0, 1_000_000, 0);
    let mut p1 = Planet::default(3_000_000, 0, 2_000_000, 1);
    p1.velocity.x = -1_000_000;
    let p2 = Planet::default(0, 2_000_000, 1_500_000, 2);

    let mut c1 = controller(vec![p0, p1, p2], 50_000, 10_000, 200_000);
    let mut c2 = controller(vec![p2, p0, p1], 50_000, 10_000, 200_000);
    c1.update(100_000);
    c2.update(100_000);

    let mut r1: Vec<(usize, i64, i64, i64, i64)> = c1
        .galaxy
        .planets
        .iter()
        .map(|p| (p.id, p.position.x, p.position.y, p.velocity.x, p.velocity.y))
        .collect();
    let mut r2: Vec<(usize, i64, i64, i64, i64)> = c2
        .galaxy
        .planets
        .iter()
        .map(|p| (p.id, p.position.x, p.position.y, p.velocity.x, p.velocity.y))
        .collect();
    r1.sort();
    r2.sort();
    assert_eq!(r1, r2);
    assert_eq!(r1[0], (0, -95_473, -122, -954_737, -1_226));
    assert_eq!(r1[1], (1, 2_923_797, 47, -762_036, 479));
    assert_eq!(r1[2], (2, 127, 1_999_970, 1_278, -308));
}

#[test]
fn test_two_ticks_accumulate() {
    // a second tick builds on the first: velocities keep growing toward the
    // other body and the positions follow
    let a = Planet::default(0, 0, 1_000_000, 0);
    let b = Planet::default(3_000_000, 0, 1_000_000, 1);
    let mut c = controller(vec![a, b], 50_000, 10_000, 200_000);
    c.update(100_000);
    assert_eq!(c.galaxy.planets[0].position.x, 55);
    assert_eq!(c.galaxy.planets[0].velocity.x, 554);
    c.update(100_000);
    assert_eq!(c.galaxy.planets[0].position.x, 165);
    assert_eq!(c.galaxy.planets[0].velocity.x, 1_108);
    assert_eq!(c.galaxy.planets[1].position.x, 2_999_835);
    assert_eq!(c.galaxy.planets[1].velocity.x, -1_108);
}

#[test]
fn test_update_keeps_count_and_identities() {
    let triples: Vec<(i64, i64, i64)> =
        vec![(0, 20_000_000, 5_000_000), (0, 40_000_000, 10_000_000), (0, 80_000_000, 20_000_000)];
    let g = Galaxy::from_triples(&triples);
    assert_eq!(g.planets.len(), 3);
    for (i, p) in g.planets.iter().enumerate() {
        assert_eq!(p.id, i);
        assert_eq!((p.velocity.x, p.velocity.y), (0, 0));
    }
    let mut c = controller(g.planets, 50_000, 10_000, 200_000);
    c.update(100_000);
    assert_eq!(c.galaxy.planets.len(), 3);
    for (i, p) in c.galaxy.planets.iter().enumerate() {
        assert_eq!(p.id, i);
    }
}
