//! The engine's general laws, each proved once and for all inputs: a body
//! never acts on itself, the overlap predicate is symmetric and counts the
//! boundary, separating contacts draw no impulse, and the whole tick does
//! not depend on the order the planets are stored in.

use vstd::prelude::*;
use vstd::multiset::Multiset;

use crate::fx::{lemma_clamp_neg, lemma_fx_mul_neg};
use crate::galaxy::Planet;
use crate::galaxy_controller::{
    after_gravity_one, after_impulse_one, closing_speed, contact_normal, GalaxySettings, grav_accel_spec,
    grav_contrib, gravity_phase_spec, impulse_contrib, impulse_phase_spec, impulse_vec_spec,
    impulse_sum, integrate_one, integrate_phase_spec, intersect_spec, pair_sum, update_spec,
};
use crate::vec2::{lemma_fx_square_neg, sqlen_spec, vsub_spec};

verus! {

/// Self-exclusion: a body contributes exactly zero gravitational
/// acceleration and exactly zero collision impulse to itself.
pub proof fn lemma_self_exclusion(p: Planet, gravity: int, rest: int, soft: int)
    ensures
        grav_contrib(p, p, gravity, soft) == (0int, 0int),
        impulse_contrib(p, p, rest, soft) == (0int, 0int),
{
}

/// The overlap predicate is symmetric: which disc plays which role does not
/// matter.
pub proof fn lemma_intersect_symmetric(a: Planet, b: Planet)
    ensures
        intersect_spec(a, b) == intersect_spec(b, a),
{
    let dab = vsub_spec(b.position, a.position);
    let dba = vsub_spec(a.position, b.position);
    lemma_clamp_neg(b.position.xi() - a.position.xi());
    lemma_clamp_neg(b.position.yi() - a.position.yi());
    assert(dba.xi() == -dab.xi() && dba.yi() == -dab.yi());
    lemma_fx_square_neg(dab.xi());
    lemma_fx_square_neg(dab.yi());
    assert(sqlen_spec(dba) == sqlen_spec(dab));
}

/// Boundary overlap: two discs whose centers are exactly the sum of their
/// radii apart count as overlapping (the predicate is inclusive).
pub proof fn lemma_touching_discs_overlap(a: Planet, b: Planet)
    requires
        sqlen_spec(vsub_spec(b.position, a.position)) == crate::fx::fx_mul_spec(
            crate::fx::fx_add_spec(b.r as int, a.r as int),
            crate::fx::fx_add_spec(b.r as int, a.r as int),
        ),
    ensures
        intersect_spec(a, b),
{
}

/// Separating contacts produce no impulse: whenever the relative velocity
/// along the contact normal is positive, the impulse contribution is zero,
/// overlap or not.
pub proof fn lemma_separating_no_impulse(p: Planet, o: Planet, rest: int, soft: int)
    requires
        closing_speed(p, o, soft) > 0,
    ensures
        impulse_contrib(p, o, rest, soft) == (0int, 0int),
{
}

/// Action and reaction for equal inverse masses: the impulse contribution
/// `o` makes to `p` and the one `p` makes to `o` are exact opposites, down
/// to the last grid unit. The per-body impulse scheme is one-sided, so this
/// cancellation is not free: it holds exactly because every scalar step is
/// odd in the sign of the separation, and the mass weights agree.
pub proof fn lemma_equal_mass_opposite_impulses(p: Planet, o: Planet, rest: int, soft: int)
    requires
        p.id != o.id,
        p.imass == o.imass,
    ensures
        impulse_contrib(o, p, rest, soft).0 == -impulse_contrib(p, o, rest, soft).0,
        impulse_contrib(o, p, rest, soft).1 == -impulse_contrib(p, o, rest, soft).1,
{
    lemma_clamp_neg(o.position.xi() - p.position.xi());
    lemma_clamp_neg(o.position.yi() - p.position.yi());
    lemma_clamp_neg(o.velocity.xi() - p.velocity.xi());
    lemma_clamp_neg(o.velocity.yi() - p.velocity.yi());
    let d = vsub_spec(o.position, p.position);
    let d2 = vsub_spec(p.position, o.position);
    assert(d2.xi() == -d.xi() && d2.yi() == -d.yi());
    lemma_fx_square_neg(d.xi());
    lemma_fx_square_neg(d.yi());
    assert(sqlen_spec(d2) == sqlen_spec(d));
    let dist = crate::fx::fx_sqrt_spec(sqlen_spec(d));
    let nf = crate::fx::fx_div_spec(
        crate::fx::SCALE as int,
        crate::fx::fx_add_spec(dist, soft),
    );
    lemma_fx_mul_neg(d.xi(), nf);
    lemma_fx_mul_neg(d.yi(), nf);
    let n1 = contact_normal(p, o, soft);
    let n2 = contact_normal(o, p, soft);
    assert(n2.xi() == -n1.xi() && n2.yi() == -n1.yi());
    let dv1 = vsub_spec(o.velocity, p.velocity);
    assert(vsub_spec(p.velocity, o.velocity).xi() == -dv1.xi());
    assert(vsub_spec(p.velocity, o.velocity).yi() == -dv1.yi());
    lemma_fx_mul_neg(n1.xi(), dv1.xi());
    lemma_fx_mul_neg(n1.yi(), dv1.yi());
    assert(closing_speed(o, p, soft) == closing_speed(p, o, soft));
    lemma_intersect_symmetric(p, o);
    if intersect_spec(p, o) && closing_speed(p, o, soft) <= 0 {
        let van = closing_speed(p, o, soft);
        let j0 = crate::fx::fx_mul_spec(crate::fx::fx_add_spec(crate::fx::SCALE as int, rest), van);
        let j1 = crate::fx::fx_div_spec(
            -j0,
            crate::fx::fx_add_spec(p.imass as int, o.imass as int),
        );
        let j = crate::fx::fx_mul_spec(j1, p.imass as int);
        lemma_fx_mul_neg(n1.xi(), -j);
        lemma_fx_mul_neg(n1.yi(), -j);
        lemma_fx_mul_neg(n1.xi(), j);
        lemma_fx_mul_neg(n1.yi(), j);
    }
}

/// Momentum across the collision pass of a two-body, equal-mass galaxy: the
/// two stored impulses are exact opposites, so applying them leaves the
/// pair's total velocity change at zero. This is the exactly provable core
/// of the elastic-collision sanity law; the full velocity exchange itself is
/// exact only up to grid rounding and softening.
pub proof fn lemma_two_body_momentum(a: Planet, b: Planet, rest: int, soft: int)
    requires
        a.id != b.id,
        a.imass == b.imass,
    ensures
        impulse_vec_spec(a, seq![a, b], rest, soft).xi() == -impulse_vec_spec(
            b,
            seq![a, b],
            rest,
            soft,
        ).xi(),
        impulse_vec_spec(a, seq![a, b], rest, soft).yi() == -impulse_vec_spec(
            b,
            seq![a, b],
            rest,
            soft,
        ).yi(),
{
    let s = seq![a, b];
    let e = Seq::<Planet>::empty();
    assert(s.drop_last() =~= seq![a]);
    assert(seq![a].drop_last() =~= e);
    assert(s.last() == b && seq![a].last() == a);
    lemma_self_exclusion(a, 0, rest, soft);
    lemma_self_exclusion(b, 0, rest, soft);
    assert(impulse_sum(a, e, rest, soft) == (0int, 0int));
    assert(impulse_sum(b, e, rest, soft) == (0int, 0int));
    assert(impulse_sum(a, seq![a], rest, soft) == impulse_contrib(a, a, rest, soft));
    assert(impulse_sum(b, seq![a], rest, soft) == impulse_contrib(b, a, rest, soft));
    assert(impulse_sum(a, s, rest, soft).0 == impulse_sum(a, seq![a], rest, soft).0
        + impulse_contrib(a, b, rest, soft).0);
    assert(impulse_sum(a, s, rest, soft).1 == impulse_sum(a, seq![a], rest, soft).1
        + impulse_contrib(a, b, rest, soft).1);
    assert(impulse_sum(b, s, rest, soft).0 == impulse_sum(b, seq![a], rest, soft).0
        + impulse_contrib(b, b, rest, soft).0);
    assert(impulse_sum(b, s, rest, soft).1 == impulse_sum(b, seq![a], rest, soft).1
        + impulse_contrib(b, b, rest, soft).1);
    assert(impulse_sum(a, s, rest, soft) == impulse_contrib(a, b, rest, soft));
    assert(impulse_sum(b, s, rest, soft) == impulse_contrib(b, a, rest, soft));
    lemma_equal_mass_opposite_impulses(a, b, rest, soft);
    lemma_clamp_neg(impulse_sum(a, s, rest, soft).0);
    lemma_clamp_neg(impulse_sum(a, s, rest, soft).1);
}

/// Removing one element takes its contribution out of the sum.
proof fn lemma_pair_sum_remove(s: Seq<Planet>, f: spec_fn(Planet) -> (int, int), j: int)
    requires
        0 <= j < s.len(),
    ensures
        pair_sum(s, f).0 == pair_sum(s.remove(j), f).0 + f(s[j]).0,
        pair_sum(s, f).1 == pair_sum(s.remove(j), f).1 + f(s[j]).1,
    decreases s.len(),
{
    if j == s.len() - 1 {
        assert(s.remove(j) =~= s.drop_last());
    } else {
        let d = s.drop_last();
        assert(s.remove(j).drop_last() =~= d.remove(j));
        assert(s.remove(j).last() == s.last());
        lemma_pair_sum_remove(d, f, j);
        assert(d[j] == s[j]);
    }
}

/// The sum of contributions does not depend on the order of the sequence:
/// two sequences holding the same multiset of planets sum to the same pair.
proof fn lemma_pair_sum_permutation(s1: Seq<Planet>, s2: Seq<Planet>, f: spec_fn(Planet) -> (
    int,
    int,
))
    requires
        s1.to_multiset() == s2.to_multiset(),
    ensures
        pair_sum(s1, f) == pair_sum(s2, f),
    decreases s1.len(),
{
    broadcast use vstd::seq_lib::group_to_multiset_ensures;

    assert(s1.len() == s1.to_multiset().len());
    assert(s2.len() == s2.to_multiset().len());
    if s1.len() == 0 {
    } else {
        let x = s1.last();
        assert(s1.contains(x));
        assert(s2.to_multiset().count(x) > 0);
        assert(s2.contains(x));
        let j = choose|j: int| 0 <= j < s2.len() && s2[j] == x;
        assert(s1.remove(s1.len() - 1) =~= s1.drop_last());
        assert(s1.drop_last().to_multiset() == s1.to_multiset().remove(x));
        assert(s2.remove(j).to_multiset() == s2.to_multiset().remove(x));
        lemma_pair_sum_permutation(s1.drop_last(), s2.remove(j), f);
        lemma_pair_sum_remove(s2, f, j);
    }
}

/// Putting an element back after taking it out restores the multiset.
proof fn lemma_multiset_remove_insert(m: Multiset<Planet>, v: Planet)
    requires
        m.count(v) > 0,
    ensures
        m.remove(v).insert(v) == m,
{
    assert(m.remove(v).insert(v) =~= m);
}

/// Mapping a function over two sequences with the same multiset of planets
/// yields the same multiset of images.
proof fn lemma_map_values_permutation(
    s1: Seq<Planet>,
    s2: Seq<Planet>,
    f: spec_fn(Planet) -> Planet,
)
    requires
        s1.to_multiset() == s2.to_multiset(),
    ensures
        s1.map_values(f).to_multiset() == s2.map_values(f).to_multiset(),
    decreases s1.len(),
{
    broadcast use vstd::seq_lib::group_to_multiset_ensures;

    assert(s1.len() == s1.to_multiset().len());
    assert(s2.len() == s2.to_multiset().len());
    if s1.len() == 0 {
        assert(s1.map_values(f) =~= s2.map_values(f));
    } else {
        let x = s1.last();
        assert(s1.contains(x));
        assert(s2.to_multiset().count(x) > 0);
        assert(s2.contains(x));
        let j = choose|j: int| 0 <= j < s2.len() && s2[j] == x;
        assert(s1.remove(s1.len() - 1) =~= s1.drop_last());
        assert(s1.drop_last().to_multiset() == s1.to_multiset().remove(x));
        assert(s2.remove(j).to_multiset() == s2.to_multiset().remove(x));
        lemma_map_values_permutation(s1.drop_last(), s2.remove(j), f);

        // the images follow the same removals
        assert(s1.map_values(f) =~= s1.drop_last().map_values(f).push(f(x)));
        assert(s1.map_values(f).to_multiset() == s1.drop_last().map_values(f).to_multiset().insert(
            f(x),
        ));
        assert(s2.map_values(f).remove(j) =~= s2.remove(j).map_values(f));
        assert(s2.remove(j).map_values(f).to_multiset() == s2.map_values(f).to_multiset().remove(
            f(x),
        ));
        assert(s2.map_values(f).to_multiset().count(f(x)) > 0) by {
            assert(s2.map_values(f)[j] == f(x));
            assert(s2.map_values(f).contains(f(x)));
        }
        lemma_multiset_remove_insert(s2.map_values(f).to_multiset(), f(x));
    }
}

/// A body's net gravitational acceleration depends on the collection of
/// bodies only, never on the order they are stored in.
pub proof fn lemma_grav_accel_permutation(
    p: Planet,
    s1: Seq<Planet>,
    s2: Seq<Planet>,
    gravity: int,
    soft: int,
)
    requires
        s1.to_multiset() == s2.to_multiset(),
    ensures
        grav_accel_spec(p, s1, gravity, soft) == grav_accel_spec(p, s2, gravity, soft),
{
    lemma_pair_sum_permutation(s1, s2, |o: Planet| grav_contrib(p, o, gravity, soft));
}

/// A body's pending impulse depends on the collection of bodies only, never
/// on the order they are stored in.
pub proof fn lemma_impulse_permutation(
    p: Planet,
    s1: Seq<Planet>,
    s2: Seq<Planet>,
    rest: int,
    soft: int,
)
    requires
        s1.to_multiset() == s2.to_multiset(),
    ensures
        impulse_vec_spec(p, s1, rest, soft) == impulse_vec_spec(p, s2, rest, soft),
{
    lemma_pair_sum_permutation(s1, s2, |o: Planet| impulse_contrib(p, o, rest, soft));
}

/// Order invariance of the whole tick: updating two galaxies that hold the
/// same multiset of planets yields the same multiset of updated planets —
/// the same set of resulting (id, position, velocity) triples, whatever the
/// storage order.
pub proof fn lemma_update_order_invariance(
    s1: Seq<Planet>,
    s2: Seq<Planet>,
    settings: GalaxySettings,
    dt: int,
)
    requires
        s1.to_multiset() == s2.to_multiset(),
    ensures
        update_spec(s1, settings, dt).to_multiset() == update_spec(s2, settings, dt).to_multiset(),
{
    let gravity = settings.gravity as int;
    let soft = settings.softening_factor as int;
    let rest = settings.restitution_factor as int;

    // gravity pass: the per-planet result is order-blind, so the two passes
    // agree pointwise and map equal multisets to equal multisets
    let f1 = |p: Planet| after_gravity_one(p, s1, gravity, soft, dt);
    let f2 = |p: Planet| after_gravity_one(p, s2, gravity, soft, dt);
    assert forall|p: Planet| #[trigger] f2(p) == f1(p) by {
        lemma_grav_accel_permutation(p, s1, s2, gravity, soft);
    }
    assert(s2.map_values(f2) =~= s2.map_values(f1));
    lemma_map_values_permutation(s1, s2, f1);
    let t1 = gravity_phase_spec(s1, gravity, soft, dt);
    let t2 = gravity_phase_spec(s2, gravity, soft, dt);
    assert(t1 == s1.map_values(f1) && t2 == s2.map_values(f2));
    assert(t1.to_multiset() == t2.to_multiset());

    // impulse pass: same shape against the post-gravity snapshots
    let h1 = |p: Planet| after_impulse_one(p, t1, rest, soft);
    let h2 = |p: Planet| after_impulse_one(p, t2, rest, soft);
    assert forall|p: Planet| #[trigger] h2(p) == h1(p) by {
        lemma_impulse_permutation(p, t1, t2, rest, soft);
    }
    assert(t2.map_values(h2) =~= t2.map_values(h1));
    lemma_map_values_permutation(t1, t2, h1);
    let u1 = impulse_phase_spec(t1, rest, soft);
    let u2 = impulse_phase_spec(t2, rest, soft);
    assert(u1.to_multiset() == u2.to_multiset());

    // integration pass: a pointwise map with no snapshot at all
    lemma_map_values_permutation(u1, u2, |p: Planet| integrate_one(p, dt));
    assert(update_spec(s1, settings, dt) == integrate_phase_spec(u1, dt));
    assert(update_spec(s2, settings, dt) == integrate_phase_spec(u2, dt));
}

} // verus!
