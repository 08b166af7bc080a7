//! The physics engine: softened all-pairs gravity, impulse-based collision
//! response and semi-implicit integration, run as three strict passes per
//! tick over a galaxy of planets.

use vstd::prelude::*;

use crate::fx::{
    fx_add, fx_add_spec, fx_clamp, fx_div, fx_div_spec, FX_MAX, fx_mul, fx_mul_spec, fx_sqrt,
    fx_sqrt_spec, SCALE,
};
use crate::galaxy::{Galaxy, galaxy_wf, Planet, planet_wf};
use crate::vec2::{
    dot, dot_spec, sqlen_spec, square_len, v2, vadd, vadd_spec, Vec2, vscale,
    vscale_spec, vsub, vsub_spec,
};

verus! {

/// Per-run physical parameters, immutable while the simulation runs.
#[derive(Clone, Copy, Debug, PartialEq, Eq, Structural)]
pub struct GalaxySettings {
    /// G, the gravitational constant: the higher the stronger gravity will be
    pub gravity: i64,
    /// a small positive value to avoid dividing by 0
    pub softening_factor: i64,
    /// restitution factor >= 0: "bounciness" of objects, 0 meaning no bounce
    pub restitution_factor: i64,
}

/// Well-formed settings: the softening term is strictly positive (it bounds
/// every divisor away from zero) and restitution is not negative.
pub open spec fn settings_wf(s: GalaxySettings) -> bool {
    s.softening_factor > 0 && s.restitution_factor >= 0
}

impl GalaxySettings {
    /// Creates settings for one run.
    pub fn new(gravity: i64, softening_factor: i64, restitution_factor: i64) -> (s:
        GalaxySettings)
        requires
            softening_factor > 0,
            restitution_factor >= 0,
        ensures
            s == (GalaxySettings { gravity, softening_factor, restitution_factor }),
            settings_wf(s),
    {
        GalaxySettings { gravity, softening_factor, restitution_factor }
    }
}

/// The overlap predicate: two discs overlap when the squared distance of
/// their centers is at most the squared sum of their radii (the boundary
/// counts as overlap).
pub open spec fn intersect_spec(planet: Planet, other: Planet) -> bool {
    let rsum: int = fx_add_spec(other.r as int, planet.r as int);
    sqlen_spec(vsub_spec(other.position, planet.position)) <= fx_mul_spec(rsum, rsum)
}

/// optimized disc intersection check
/// (optimized) <=> no sqrt computation
pub fn intersect(planet: &Planet, other_planet: &Planet) -> (r: bool)
    ensures
        r == intersect_spec(*planet, *other_planet),
{
    let d = vsub(other_planet.position, planet.position);
    let sq = square_len(d);
    let rsum = fx_add(other_planet.r, planet.r);
    sq <= fx_mul(rsum, rsum)
}

/// The gravitational acceleration one other planet contributes to `planet`:
/// zero for the planet itself and for exactly coincident centers, otherwise
/// the softened inverse-square attraction along the line between the two.
pub open spec fn grav_contrib(planet: Planet, other: Planet, gravity: int, soft: int) -> (
    int,
    int,
) {
    if other.id == planet.id {
        (0, 0)
    } else {
        let d: Vec2 = vsub_spec(other.position, planet.position);
        let sq: int = sqlen_spec(d);
        let acc: int = fx_div_spec(fx_mul_spec(gravity, other.mass as int), fx_add_spec(sq, soft));
        let dist: int = fx_sqrt_spec(sq);
        if dist == 0 {
            (0, 0)
        } else {
            let k: int = fx_div_spec(acc, dist);
            (fx_mul_spec(d.xi(), k), fx_mul_spec(d.yi(), k))
        }
    }
}

/// Componentwise sum of per-planet contributions, in sequence order, without
/// saturation: the accumulator is exact, so the sum does not depend on the
/// order of the sequence.
pub open spec fn pair_sum(s: Seq<Planet>, f: spec_fn(Planet) -> (int, int)) -> (int, int)
    decreases s.len(),
{
    if s.len() == 0 {
        (0, 0)
    } else {
        let rest = pair_sum(s.drop_last(), f);
        let c = f(s.last());
        (rest.0 + c.0, rest.1 + c.1)
    }
}

/// The exact (unsaturated) sum of gravitational contributions to `planet`
/// from every planet of `s`, the planet itself contributing zero.
pub open spec fn grav_sum(planet: Planet, s: Seq<Planet>, gravity: int, soft: int) -> (int, int) {
    pair_sum(s, |o: Planet| grav_contrib(planet, o, gravity, soft))
}

/// The net gravitational acceleration on `planet`: the exact sum of
/// contributions, saturated onto the grid.
pub open spec fn grav_accel_spec(planet: Planet, s: Seq<Planet>, gravity: int, soft: int) -> Vec2 {
    let t = grav_sum(planet, s, gravity, soft);
    v2(fx_clamp(t.0), fx_clamp(t.1))
}

/// Both components of one gravitational contribution fit the grid.
pub proof fn lemma_grav_contrib_bounds(planet: Planet, other: Planet, gravity: int, soft: int)
    ensures
        -(FX_MAX as int) <= grav_contrib(planet, other, gravity, soft).0 <= FX_MAX as int,
        -(FX_MAX as int) <= grav_contrib(planet, other, gravity, soft).1 <= FX_MAX as int,
{
}

/// The contact normal from `planet` toward `other`: the center difference
/// scaled by the softened reciprocal of the center distance (softening keeps
/// the divisor positive even for coincident centers).
pub open spec fn contact_normal(planet: Planet, other: Planet, soft: int) -> Vec2 {
    let d: Vec2 = vsub_spec(other.position, planet.position);
    let dist: int = fx_sqrt_spec(sqlen_spec(d));
    vscale_spec(d, fx_div_spec(SCALE as int, fx_add_spec(dist, soft)))
}

/// The relative velocity of `other` with respect to `planet`, projected on
/// the contact normal: negative when the two approach, positive when they
/// separate.
pub open spec fn closing_speed(planet: Planet, other: Planet, soft: int) -> int {
    dot_spec(contact_normal(planet, other, soft), vsub_spec(other.velocity, planet.velocity))
}

/// The collision impulse one other planet contributes to `planet`'s pending
/// impulse: zero for the planet itself, for non-overlapping pairs and for
/// pairs already separating along the contact normal; otherwise the
/// restitution-scaled correction along the normal, weighted by `planet`'s
/// share of the pair's inverse mass.
pub open spec fn impulse_contrib(planet: Planet, other: Planet, rest: int, soft: int) -> (
    int,
    int,
) {
    if other.id == planet.id {
        (0, 0)
    } else {
        let n: Vec2 = contact_normal(planet, other, soft);
        let van: int = closing_speed(planet, other, soft);
        if !intersect_spec(planet, other) || van > 0 {
            (0, 0)
        } else {
            let j0: int = fx_mul_spec(fx_add_spec(SCALE as int, rest), van);
            let j1: int = fx_div_spec(-j0, fx_add_spec(planet.imass as int, other.imass as int));
            let j: int = fx_mul_spec(j1, planet.imass as int);
            (fx_mul_spec(n.xi(), -j), fx_mul_spec(n.yi(), -j))
        }
    }
}

/// The exact (unsaturated) sum of impulse contributions to `planet` from
/// every planet of `s`, the planet itself contributing zero.
pub open spec fn impulse_sum(planet: Planet, s: Seq<Planet>, rest: int, soft: int) -> (int, int) {
    pair_sum(s, |o: Planet| impulse_contrib(planet, o, rest, soft))
}

/// The pending impulse stored on `planet` by the collision pass: the exact
/// sum of contributions, saturated onto the grid.
pub open spec fn impulse_vec_spec(planet: Planet, s: Seq<Planet>, rest: int, soft: int) -> Vec2 {
    let t = impulse_sum(planet, s, rest, soft);
    v2(fx_clamp(t.0), fx_clamp(t.1))
}

/// Both components of one impulse contribution fit the grid.
pub proof fn lemma_impulse_contrib_bounds(planet: Planet, other: Planet, rest: int, soft: int)
    ensures
        -(FX_MAX as int) <= impulse_contrib(planet, other, rest, soft).0 <= FX_MAX as int,
        -(FX_MAX as int) <= impulse_contrib(planet, other, rest, soft).1 <= FX_MAX as int,
{
}

/// One planet after the gravity pass: its velocity advanced by the net
/// gravitational acceleration over the time step, everything else kept.
pub open spec fn after_gravity_one(p: Planet, s: Seq<Planet>, gravity: int, soft: int, dt: int) -> Planet {
    Planet { velocity: vadd_spec(p.velocity, vscale_spec(grav_accel_spec(p, s, gravity, soft), dt)), ..p }
}

/// One planet after the collision pass: its pending impulse replaced by the
/// sum of contributions from the whole set, everything else kept.
pub open spec fn after_impulse_one(p: Planet, s: Seq<Planet>, rest: int, soft: int) -> Planet {
    Planet { impulse: impulse_vec_spec(p, s, rest, soft), ..p }
}

/// One planet after the integration pass: the pending impulse applied to the
/// velocity, then the position advanced by the corrected velocity over the
/// time step.
pub open spec fn integrate_one(p: Planet, dt: int) -> Planet {
    let v: Vec2 = vadd_spec(p.velocity, p.impulse);
    Planet { velocity: v, position: vadd_spec(p.position, vscale_spec(v, dt)), ..p }
}

/// The whole gravity pass: every velocity advanced against the same frozen
/// snapshot of positions and masses.
pub open spec fn gravity_phase_spec(s: Seq<Planet>, gravity: int, soft: int, dt: int) -> Seq<Planet> {
    s.map_values(|p: Planet| after_gravity_one(p, s, gravity, soft, dt))
}

/// The whole collision pass: every pending impulse computed against the same
/// frozen snapshot of positions and post-gravity velocities.
pub open spec fn impulse_phase_spec(s: Seq<Planet>, rest: int, soft: int) -> Seq<Planet> {
    s.map_values(|p: Planet| after_impulse_one(p, s, rest, soft))
}

/// The whole integration pass, planet by planet.
pub open spec fn integrate_phase_spec(s: Seq<Planet>, dt: int) -> Seq<Planet> {
    s.map_values(|p: Planet| integrate_one(p, dt))
}

/// One full tick: gravity, then impulses, then integration, each pass
/// complete before the next begins.
pub open spec fn update_spec(s: Seq<Planet>, settings: GalaxySettings, dt: int) -> Seq<Planet> {
    let s1 = gravity_phase_spec(s, settings.gravity as int, settings.softening_factor as int, dt);
    let s2 = impulse_phase_spec(s1, settings.restitution_factor as int, settings.softening_factor as int);
    integrate_phase_spec(s2, dt)
}

/// Handles the galaxy simulation: owns the galaxy state and the physical
/// settings, and advances the state by one tick per `update` call.
#[derive(Debug)]
pub struct GalaxyController {
    /// stores the galaxy state
    pub galaxy: Galaxy,
    /// galaxy physic settings
    pub settings: GalaxySettings,
}

impl GalaxyController {
    /// Creates a new galaxy controller.
    pub fn new(galaxy: Galaxy, settings: GalaxySettings) -> (c: GalaxyController)
        ensures
            c.galaxy == galaxy,
            c.settings == settings,
    {
        GalaxyController { galaxy, settings }
    }

    /// The gravitational acceleration `other_planet` exerts on `planet`.
    pub fn compute_single_gravitational_force(
        planet: &Planet,
        other_planet: &Planet,
        gravity: i64,
        softening_factor: i64,
    ) -> (r: Vec2)
        requires
            softening_factor > 0,
        ensures
            r.x as int == grav_contrib(
                *planet,
                *other_planet,
                gravity as int,
                softening_factor as int,
            ).0,
            r.y as int == grav_contrib(
                *planet,
                *other_planet,
                gravity as int,
                softening_factor as int,
            ).1,
    {
        if planet.id == other_planet.id {
            return Vec2::zero();
        }
        let d = vsub(other_planet.position, planet.position);
        let sq = square_len(d);
        let acc = fx_div(fx_mul(gravity, other_planet.mass), fx_add(sq, softening_factor));
        let dist = fx_sqrt(sq);
        if dist == 0 {
            Vec2::zero()
        } else {
            vscale(d, fx_div(acc, dist))
        }
    }

    /// The net gravitational acceleration on `planet` from every planet of
    /// `other_planets` (the planet itself, found by identity, contributes
    /// nothing).
    pub fn compute_gravitational_force(
        planet: &Planet,
        other_planets: &Vec<Planet>,
        gravity: i64,
        softening_factor: i64,
    ) -> (r: Vec2)
        requires
            softening_factor > 0,
        ensures
            r == grav_accel_spec(
                *planet,
                other_planets@,
                gravity as int,
                softening_factor as int,
            ),
    {
        let ghost s = other_planets@;
        let n = other_planets.len();
        let mut ax: i128 = 0;
        let mut ay: i128 = 0;
        let mut i: usize = 0;
        while i < n
            invariant
                i <= n,
                n == s.len(),
                s == other_planets@,
                softening_factor > 0,
                (ax as int, ay as int) == grav_sum(
                    *planet,
                    s.take(i as int),
                    gravity as int,
                    softening_factor as int,
                ),
                -(i as int) * (FX_MAX as int) <= ax as int <= (i as int) * (FX_MAX as int),
                -(i as int) * (FX_MAX as int) <= ay as int <= (i as int) * (FX_MAX as int),
            decreases n - i,
        {
            let c = GalaxyController::compute_single_gravitational_force(
                planet,
                &other_planets[i],
                gravity,
                softening_factor,
            );
            proof {
                lemma_grav_contrib_bounds(
                    *planet,
                    s[i as int],
                    gravity as int,
                    softening_factor as int,
                );
                assert(s.take(i as int + 1).drop_last() =~= s.take(i as int));
                assert(s.take(i as int + 1).last() == s[i as int]);
                assert(grav_sum(
                    *planet,
                    s.take(i as int + 1),
                    gravity as int,
                    softening_factor as int,
                ) == {
                    let rest = grav_sum(
                        *planet,
                        s.take(i as int),
                        gravity as int,
                        softening_factor as int,
                    );
                    let c = grav_contrib(
                        *planet,
                        s[i as int],
                        gravity as int,
                        softening_factor as int,
                    );
                    (rest.0 + c.0, rest.1 + c.1)
                });
            }
            ax = ax + c.x as i128;
            ay = ay + c.y as i128;
            i += 1;
        }
        proof {
            assert(s.take(n as int) =~= s);
        }
        Vec2 { x: crate::fx::clamp_wide(ax), y: crate::fx::clamp_wide(ay) }
    }

    /// The collision impulse `other_planet` contributes to `planet`.
    pub fn compute_single_impulse(
        planet: &Planet,
        other_planet: &Planet,
        restitution_factor: i64,
        softening_factor: i64,
    ) -> (r: Vec2)
        requires
            softening_factor > 0,
            planet_wf(*planet),
            planet_wf(*other_planet),
        ensures
            r.x as int == impulse_contrib(
                *planet,
                *other_planet,
                restitution_factor as int,
                softening_factor as int,
            ).0,
            r.y as int == impulse_contrib(
                *planet,
                *other_planet,
                restitution_factor as int,
                softening_factor as int,
            ).1,
    {
        let dv = vsub(other_planet.velocity, planet.velocity);
        let d = vsub(other_planet.position, planet.position);
        let sq = square_len(d);
        let dist = fx_sqrt(sq);
        let normal = vscale(d, fx_div(SCALE, fx_add(dist, softening_factor)));
        let velocity_along_normal = dot(normal, dv);
        let intersects = intersect(planet, other_planet);

        // a positive speed along the normal means the two are already
        // separating: no impulse for resting or separating contacts
        if planet.id == other_planet.id || !intersects || velocity_along_normal > 0 {
            Vec2::zero()
        } else {
            let j = fx_mul(fx_add(SCALE, restitution_factor), velocity_along_normal);
            proof {
                assert(-(FX_MAX as int) <= j as int <= FX_MAX as int);
                assert(fx_add_spec(planet.imass as int, other_planet.imass as int) >= 2);
            }
            let j = fx_div(-j, fx_add(planet.imass, other_planet.imass));
            let j = fx_mul(j, planet.imass);
            proof {
                assert(-(FX_MAX as int) <= j as int <= FX_MAX as int);
            }
            vscale(normal, -j)
        }
    }

    /// The whole pending impulse on `planet` from every planet of
    /// `other_planets` (the planet itself, found by identity, contributes
    /// nothing).
    pub fn compute_impulse(
        planet: &Planet,
        other_planets: &Vec<Planet>,
        restitution_factor: i64,
        softening_factor: i64,
    ) -> (r: Vec2)
        requires
            softening_factor > 0,
            planet_wf(*planet),
            forall|k: int| 0 <= k < other_planets@.len() ==> planet_wf(#[trigger] other_planets@[k]),
        ensures
            r == impulse_vec_spec(
                *planet,
                other_planets@,
                restitution_factor as int,
                softening_factor as int,
            ),
    {
        let ghost s = other_planets@;
        let n = other_planets.len();
        let mut ax: i128 = 0;
        let mut ay: i128 = 0;
        let mut i: usize = 0;
        while i < n
            invariant
                i <= n,
                n == s.len(),
                s == other_planets@,
                softening_factor > 0,
                planet_wf(*planet),
                forall|k: int| 0 <= k < s.len() ==> planet_wf(#[trigger] s[k]),
                (ax as int, ay as int) == impulse_sum(
                    *planet,
                    s.take(i as int),
                    restitution_factor as int,
                    softening_factor as int,
                ),
                -(i as int) * (FX_MAX as int) <= ax as int <= (i as int) * (FX_MAX as int),
                -(i as int) * (FX_MAX as int) <= ay as int <= (i as int) * (FX_MAX as int),
            decreases n - i,
        {
            let c = GalaxyController::compute_single_impulse(
                planet,
                &other_planets[i],
                restitution_factor,
                softening_factor,
            );
            proof {
                lemma_impulse_contrib_bounds(
                    *planet,
                    s[i as int],
                    restitution_factor as int,
                    softening_factor as int,
                );
                assert(s.take(i as int + 1).drop_last() =~= s.take(i as int));
                assert(s.take(i as int + 1).last() == s[i as int]);
                assert(impulse_sum(
                    *planet,
                    s.take(i as int + 1),
                    restitution_factor as int,
                    softening_factor as int,
                ) == {
                    let rest = impulse_sum(
                        *planet,
                        s.take(i as int),
                        restitution_factor as int,
                        softening_factor as int,
                    );
                    let c = impulse_contrib(
                        *planet,
                        s[i as int],
                        restitution_factor as int,
                        softening_factor as int,
                    );
                    (rest.0 + c.0, rest.1 + c.1)
                });
            }
            ax = ax + c.x as i128;
            ay = ay + c.y as i128;
            i += 1;
        }
        proof {
            assert(s.take(n as int) =~= s);
        }
        Vec2 { x: crate::fx::clamp_wide(ax), y: crate::fx::clamp_wide(ay) }
    }

    /// The gravity pass: advances every planet's velocity by its net
    /// gravitational acceleration, against a frozen snapshot of positions.
    fn compute_gravitational_interactions(&mut self, dt: i64)
        requires
            settings_wf(old(self).settings),
        ensures
            final(self).settings == old(self).settings,
            final(self).galaxy.planets@ == gravity_phase_spec(
                old(self).galaxy.planets@,
                old(self).settings.gravity as int,
                old(self).settings.softening_factor as int,
                dt as int,
            ),
    {
        let ghost s = self.galaxy.planets@;
        let n = self.galaxy.planets.len();
        let mut out: Vec<Planet> = Vec::new();
        let mut i: usize = 0;
        while i < n
            invariant
                i <= n,
                n == s.len(),
                self.galaxy.planets@ == s,
                self.settings == old(self).settings,
                settings_wf(self.settings),
                out@.len() == i,
                forall|k: int|
                    0 <= k < i ==> #[trigger] out@[k] == after_gravity_one(
                        s[k],
                        s,
                        old(self).settings.gravity as int,
                        old(self).settings.softening_factor as int,
                        dt as int,
                    ),
            decreases n - i,
        {
            let p = self.galaxy.planets[i];
            let a = GalaxyController::compute_gravitational_force(
                &p,
                &self.galaxy.planets,
                self.settings.gravity,
                self.settings.softening_factor,
            );
            out.push(Planet { velocity: vadd(p.velocity, vscale(a, dt)), ..p });
            i += 1;
        }
        self.galaxy.planets = out;
        proof {
            assert(self.galaxy.planets@ =~= gravity_phase_spec(
                s,
                old(self).settings.gravity as int,
                old(self).settings.softening_factor as int,
                dt as int,
            ));
        }
    }

    /// The collision pass: computes every planet's pending impulse against a
    /// frozen snapshot of positions and post-gravity velocities.
    fn compute_impulses(&mut self)
        requires
            settings_wf(old(self).settings),
            galaxy_wf(old(self).galaxy),
        ensures
            final(self).settings == old(self).settings,
            final(self).galaxy.planets@ == impulse_phase_spec(
                old(self).galaxy.planets@,
                old(self).settings.restitution_factor as int,
                old(self).settings.softening_factor as int,
            ),
    {
        let ghost s = self.galaxy.planets@;
        let n = self.galaxy.planets.len();
        let mut out: Vec<Planet> = Vec::new();
        let mut i: usize = 0;
        while i < n
            invariant
                i <= n,
                n == s.len(),
                self.galaxy.planets@ == s,
                self.settings == old(self).settings,
                settings_wf(self.settings),
                galaxy_wf(self.galaxy),
                out@.len() == i,
                forall|k: int|
                    0 <= k < i ==> #[trigger] out@[k] == after_impulse_one(
                        s[k],
                        s,
                        old(self).settings.restitution_factor as int,
                        old(self).settings.softening_factor as int,
                    ),
            decreases n - i,
        {
            let p = self.galaxy.planets[i];
            let imp = GalaxyController::compute_impulse(
                &p,
                &self.galaxy.planets,
                self.settings.restitution_factor,
                self.settings.softening_factor,
            );
            out.push(Planet { impulse: imp, ..p });
            i += 1;
        }
        self.galaxy.planets = out;
        proof {
            assert(self.galaxy.planets@ =~= impulse_phase_spec(
                s,
                old(self).settings.restitution_factor as int,
                old(self).settings.softening_factor as int,
            ));
        }
    }

    /// The integration pass: applies every pending impulse to its planet's
    /// velocity, then advances the position by the corrected velocity.
    fn compute_positions(&mut self, dt: i64)
        ensures
            final(self).settings == old(self).settings,
            final(self).galaxy.planets@ == integrate_phase_spec(
                old(self).galaxy.planets@,
                dt as int,
            ),
    {
        let ghost s = self.galaxy.planets@;
        let n = self.galaxy.planets.len();
        let mut out: Vec<Planet> = Vec::new();
        let mut i: usize = 0;
        while i < n
            invariant
                i <= n,
                n == s.len(),
                self.galaxy.planets@ == s,
                self.settings == old(self).settings,
                out@.len() == i,
                forall|k: int|
                    0 <= k < i ==> #[trigger] out@[k] == integrate_one(s[k], dt as int),
            decreases n - i,
        {
            let p = self.galaxy.planets[i];
            let v = vadd(p.velocity, p.impulse);
            out.push(Planet { velocity: v, position: vadd(p.position, vscale(v, dt)), ..p });
            i += 1;
        }
        self.galaxy.planets = out;
        proof {
            assert(self.galaxy.planets@ =~= integrate_phase_spec(s, dt as int));
        }
    }

    /// Update planet positions according to gravitational interactions:
    /// one full tick of simulated time `dt`, run as three strict passes.
    pub fn update(&mut self, dt: i64)
        requires
            dt > 0,
            settings_wf(old(self).settings),
            galaxy_wf(old(self).galaxy),
        ensures
            final(self).settings == old(self).settings,
            final(self).galaxy.planets@ == update_spec(
                old(self).galaxy.planets@,
                old(self).settings,
                dt as int,
            ),
            galaxy_wf(final(self).galaxy),
            final(self).galaxy.planets@.len() == old(self).galaxy.planets@.len(),
            forall|k: int|
                0 <= k < old(self).galaxy.planets@.len() ==> (#[trigger] final(self).galaxy.planets@[k]).id
                    == old(self).galaxy.planets@[k].id,
            crate::galaxy::distinct_ids(old(self).galaxy.planets@) ==> crate::galaxy::distinct_ids(
                final(self).galaxy.planets@,
            ),
    {
        let ghost s0 = self.galaxy.planets@;
        self.compute_gravitational_interactions(dt);
        let ghost s1 = self.galaxy.planets@;
        proof {
            assert forall|k: int| 0 <= k < s1.len() implies planet_wf(#[trigger] s1[k]) by {
                assert(s1[k] == after_gravity_one(
                    s0[k],
                    s0,
                    old(self).settings.gravity as int,
                    old(self).settings.softening_factor as int,
                    dt as int,
                ));
            }
        }
        self.compute_impulses();
        let ghost s2 = self.galaxy.planets@;
        self.compute_positions(dt);
        proof {
            let s3 = self.galaxy.planets@;
            assert forall|k: int| 0 <= k < s3.len() implies planet_wf(#[trigger] s3[k])
                && s3[k].id == s0[k].id by {
                assert(s2[k] == after_impulse_one(
                    s1[k],
                    s1,
                    old(self).settings.restitution_factor as int,
                    old(self).settings.softening_factor as int,
                ));
                assert(s3[k] == integrate_one(s2[k], dt as int));
            }
        }
    }
}

} // verus!
