//! The simulated bodies: a planet is a disc with position, velocity, a
//! pending collision impulse, a radius and the mass derived from it, and a
//! stable identity used only to tell a body from itself in all-pairs loops.

use vstd::prelude::*;

use crate::fx::{fx_div, fx_div_spec, fx_mul, fx_mul_spec, SCALE};
use crate::vec2::Vec2;

verus! {

/// Smallest accepted radius: a thinner disc has zero area on the grid, and
/// its mass would vanish.
pub const MIN_RADIUS: i64 = 1_000;

/// Largest accepted radius: a wider disc has so much mass that its inverse
/// mass would vanish on the grid.
pub const MAX_RADIUS: i64 = 1_000_000_000;

/// A single simulated disc.
#[derive(Clone, Copy, Debug, PartialEq, Eq, Structural)]
pub struct Planet {
    /// x, y position
    pub position: Vec2,
    /// x, y velocity
    pub velocity: Vec2,
    /// x, y impulse (for collisions), valid between the collision pass and
    /// the integration pass of the same tick
    pub impulse: Vec2,
    /// radius
    pub r: i64,
    /// mass > 0, the squared radius
    pub mass: i64,
    /// 1 / mass
    pub imass: i64,
    /// unique id
    pub id: usize,
}

/// A well-formed planet has a positive radius, mass and inverse mass; every
/// constructor establishes this and the simulation never changes the three.
pub open spec fn planet_wf(p: Planet) -> bool {
    p.r > 0 && p.mass > 0 && p.imass > 0
}

/// The planet `Planet::default` builds: mass is the squared radius, inverse
/// mass its reciprocal, velocity and impulse zero.
pub open spec fn planet_spec(x: i64, y: i64, r: i64, id: usize) -> Planet {
    let m: int = fx_mul_spec(r as int, r as int);
    Planet {
        position: Vec2 { x, y },
        velocity: Vec2 { x: 0i64, y: 0i64 },
        impulse: Vec2 { x: 0i64, y: 0i64 },
        r,
        mass: m as i64,
        imass: fx_div_spec(SCALE as int, m) as i64,
        id,
    }
}

impl Planet {
    /// Creates a new planet at `(x, y)` with radius `r` and identity `id`:
    /// mass is the squared radius, inverse mass its reciprocal, and velocity
    /// and impulse start at zero.
    pub fn default(x: i64, y: i64, r: i64, id: usize) -> (p: Planet)
        requires
            MIN_RADIUS <= r <= MAX_RADIUS,
        ensures
            p == planet_spec(x, y, r, id),
            p.mass as int == fx_mul_spec(r as int, r as int),
            p.imass as int == fx_div_spec(SCALE as int, p.mass as int),
            planet_wf(p),
    {
        proof {
            assert(1_000_000 <= (r as int) * (r as int) <= 1_000_000_000_000_000_000)
                by (nonlinear_arith)
                requires
                    MIN_RADIUS as int <= r as int <= MAX_RADIUS as int,
            ;
            vstd::arithmetic::div_mod::lemma_div_is_ordered(
                1_000_000,
                (r as int) * (r as int),
                SCALE as int,
            );
            vstd::arithmetic::div_mod::lemma_div_is_ordered(
                (r as int) * (r as int),
                1_000_000_000_000_000_000,
                SCALE as int,
            );
        }
        let mass = fx_mul(r, r);
        proof {
            assert(1 <= mass as int <= 1_000_000_000_000);
            vstd::arithmetic::div_mod::lemma_div_pos_is_pos(
                (SCALE as int) * (SCALE as int),
                mass as int,
            );
            vstd::arithmetic::div_mod::lemma_div_is_ordered(
                mass as int,
                1_000_000_000_000,
                mass as int,
            );
            vstd::arithmetic::div_mod::lemma_div_by_multiple(1, mass as int);
        }
        let imass = fx_div(SCALE, mass);
        Planet {
            position: Vec2 { x, y },
            velocity: Vec2 { x: 0, y: 0 },
            impulse: Vec2 { x: 0, y: 0 },
            r,
            mass,
            imass,
            id,
        }
    }

    /// Checked construction: builds the planet exactly when the radius is
    /// representable, and rejects it otherwise — a nonpositive or sub-grid
    /// radius would carry no mass, an oversized one no inverse mass.
    pub fn try_default(x: i64, y: i64, r: i64, id: usize) -> (p: Option<Planet>)
        ensures
            p.is_some() <==> MIN_RADIUS <= r <= MAX_RADIUS,
            p.is_some() ==> p.unwrap() == planet_spec(x, y, r, id) && planet_wf(p.unwrap()),
    {
        if MIN_RADIUS <= r && r <= MAX_RADIUS {
            Some(Planet::default(x, y, r, id))
        } else {
            None
        }
    }
}

/// A galaxy: the ordered collection of planets the engine advances tick by
/// tick. Order is insertion order and carries no physical meaning.
#[derive(Debug)]
pub struct Galaxy {
    /// planets
    pub planets: Vec<Planet>,
}

/// Every planet of the galaxy is well-formed.
pub open spec fn galaxy_wf(g: Galaxy) -> bool {
    forall|i: int| 0 <= i < g.planets@.len() ==> planet_wf(#[trigger] g.planets@[i])
}

/// The planets' identities are pairwise distinct.
pub open spec fn distinct_ids(s: Seq<Planet>) -> bool {
    forall|i: int, j: int|
        0 <= i < s.len() && 0 <= j < s.len() && i != j ==> #[trigger] s[i].id != #[trigger] s[j].id
}

impl Galaxy {
    /// Creates a galaxy from an already-built list of planets.
    pub fn new(planets: Vec<Planet>) -> (g: Galaxy)
        ensures
            g.planets == planets,
    {
        Galaxy { planets }
    }

    /// Creates a galaxy from `(x, y, radius)` triples: planet `i` sits at
    /// `(x_i, y_i)` with radius `r_i`, zero velocity and identity `i`, so
    /// identities are pairwise distinct.
    pub fn from_triples(triples: &Vec<(i64, i64, i64)>) -> (g: Galaxy)
        requires
            forall|i: int|
                0 <= i < triples@.len() ==> MIN_RADIUS <= (#[trigger] triples@[i]).2 <= MAX_RADIUS,
        ensures
            g.planets@.len() == triples@.len(),
            forall|i: int|
                0 <= i < triples@.len() ==> #[trigger] g.planets@[i] == planet_spec(
                    triples@[i].0,
                    triples@[i].1,
                    triples@[i].2,
                    i as usize,
                ),
            galaxy_wf(g),
            distinct_ids(g.planets@),
    {
        let n = triples.len();
        let mut planets: Vec<Planet> = Vec::new();
        let mut i: usize = 0;
        while i < n
            invariant
                i <= n,
                n == triples@.len(),
                planets@.len() == i,
                forall|k: int|
                    0 <= k < triples@.len() ==> MIN_RADIUS <= (#[trigger] triples@[k]).2
                        <= MAX_RADIUS,
                forall|k: int|
                    0 <= k < i ==> #[trigger] planets@[k] == planet_spec(
                        triples@[k].0,
                        triples@[k].1,
                        triples@[k].2,
                        k as usize,
                    ),
                forall|k: int| 0 <= k < i ==> planet_wf(#[trigger] planets@[k]),
            decreases n - i,
        {
            let t = triples[i];
            let p = Planet::default(t.0, t.1, t.2, i);
            planets.push(p);
            i += 1;
        }
        let g = Galaxy { planets };
        proof {
            assert forall|a: int, b: int|
                0 <= a < g.planets@.len() && 0 <= b < g.planets@.len() && a != b implies #[trigger] g
                .planets@[a].id != #[trigger] g.planets@[b].id by {
                assert(g.planets@[a].id == a as usize);
                assert(g.planets@[b].id == b as usize);
            }
        }
        g
    }
}

} // verus!
