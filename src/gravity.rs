//! The gravity field: a snapshot of tagged bodies, and for each body the
//! pulls that every other mass-bearing body exerts on it.
//!
//! A pull is kept exact: the source's strength, the displacement towards
//! it, and the squared distance, floored so that coincident bodies never
//! divide by zero. The acceleration it stands for is
//! `strength · offset / distance_squared^(3/2)`.
use vstd::prelude::*;
use crate::vector::{IVec3, sub_of, dot_of};
use vstd::set_lib::lemma_map_size;

verus! {

/// Gravitational constant: a source's strength is its mass times this.
pub const G: u64 = 1000;

/// Largest size of a position coordinate.
pub const POSITION_LIMIT: i64 = 1_073_741_824;

/// Floor on the squared distance of a pull.
pub const MIN_DISTANCE_SQUARED: u64 = 1;

/// How an entity takes part in gravity.
#[derive(Clone, Copy, Debug, PartialEq, Eq, Structural)]
pub enum PointMass {
    /// A source: pulls on every other body, and is pulled by other sources.
    HasGravity { mass: u32 },
    /// A sink: pulls on nothing, only is pulled.
    AffectedByGravity,
}

/// A body of one simulation step.
#[derive(Clone, Copy, Debug, PartialEq, Eq, Structural)]
pub struct Body {
    pub position: IVec3,
    /// Gravitational parameter: zero for a sink.
    pub mu: u64,
    /// Handle of the entity that receives this body's acceleration.
    pub entity: u64,
}

/// An entity as the host hands it over: where it is and how it is tagged.
#[derive(Clone, Copy, Debug, PartialEq, Eq, Structural)]
pub struct Tagged {
    pub position: IVec3,
    pub point_mass: PointMass,
    pub entity: u64,
}

/// The pull of one source on one body.
#[derive(Clone, Copy, Debug, PartialEq, Eq, Structural)]
pub struct Pull {
    /// The source's gravitational parameter.
    pub strength: u64,
    /// Source position minus body position.
    pub offset: IVec3,
    /// `|offset|²`, but at least `MIN_DISTANCE_SQUARED`.
    pub distance_squared: u64,
}

/// The pulls on one body.
#[derive(Debug)]
pub struct BodyPulls {
    pub entity: u64,
    pub pulls: Vec<Pull>,
}

/// A position that the field can work with.
pub open spec fn position_ok(p: IVec3) -> bool {
    &&& -POSITION_LIMIT <= p.x <= POSITION_LIMIT
    &&& -POSITION_LIMIT <= p.y <= POSITION_LIMIT
    &&& -POSITION_LIMIT <= p.z <= POSITION_LIMIT
}

/// Gravitational parameter of a tag.
pub open spec fn strength_of(pm: PointMass) -> int {
    match pm {
        PointMass::HasGravity { mass } => mass * G,
        PointMass::AffectedByGravity => 0,
    }
}

/// The body that a tagged entity becomes.
pub open spec fn body_of(t: Tagged) -> Body {
    Body { position: t.position, mu: strength_of(t.point_mass) as u64, entity: t.entity }
}

/// Squared length, floored.
pub open spec fn clamped_square(v: (int, int, int)) -> int {
    let d2 = dot_of(v, v);
    if d2 < MIN_DISTANCE_SQUARED {
        MIN_DISTANCE_SQUARED as int
    } else {
        d2
    }
}

/// The pull of `source` on `body`.
pub open spec fn pull_of(body: Body, source: Body) -> Pull {
    let v = sub_of(source.position@, body.position@);
    Pull {
        strength: source.mu,
        offset: IVec3 { x: v.0 as i64, y: v.1 as i64, z: v.2 as i64 },
        distance_squared: clamped_square(v) as u64,
    }
}

/// The pulls on body `i` from bodies `0..n`, in list order: one from each
/// body other than `i` whose strength is not zero.
pub open spec fn pulls_upto(s: Seq<Body>, i: int, n: int) -> Seq<Pull>
    decreases n,
{
    if n <= 0 {
        Seq::empty()
    } else {
        let before = pulls_upto(s, i, n - 1);
        if n - 1 != i && s[n - 1].mu != 0 {
            before.push(pull_of(s[i], s[n - 1]))
        } else {
            before
        }
    }
}

/// The pulls on body `i` of a snapshot.
pub open spec fn pulls_on(s: Seq<Body>, i: int) -> Seq<Pull> {
    pulls_upto(s, i, s.len() as int)
}

/// Whether a position is one that the field can work with.
pub fn position_ok_exec(p: &IVec3) -> (ok: bool)
    ensures
        ok == position_ok(*p),
{
    -POSITION_LIMIT <= p.x && p.x <= POSITION_LIMIT && -POSITION_LIMIT <= p.y && p.y
        <= POSITION_LIMIT && -POSITION_LIMIT <= p.z && p.z <= POSITION_LIMIT
}

impl Body {
    pub fn new(position: IVec3, mu: u64, entity: u64) -> (b: Body)
        ensures
            b.position == position,
            b.mu == mu,
            b.entity == entity,
    {
        Body { position, mu, entity }
    }
}

/// Gravitational parameter of a tag: mass times `G` for a source, zero for
/// a sink.
pub fn strength(pm: &PointMass) -> (mu: u64)
    ensures
        mu == strength_of(*pm),
{
    match pm {
        PointMass::HasGravity { mass } => (*mass as u64) * G,
        PointMass::AffectedByGravity => 0,
    }
}

/// Builds a fresh snapshot: one body per tagged entity, sinks included, in
/// the order given.
pub fn rebuild(tagged: &Vec<Tagged>) -> (bodies: Vec<Body>)
    ensures
        bodies.len() == tagged.len(),
        forall|i: int| 0 <= i < tagged.len() ==> #[trigger] bodies[i] == body_of(tagged[i]),
{
    let mut bodies: Vec<Body> = Vec::new();
    let mut i: usize = 0;
    while i < tagged.len()
        invariant
            i <= tagged.len(),
            bodies.len() == i,
            forall|k: int| 0 <= k < i ==> #[trigger] bodies[k] == body_of(tagged[k]),
        decreases tagged.len() - i,
    {
        let t = &tagged[i];
        bodies.push(Body::new(t.position, strength(&t.point_mass), t.entity));
        i = i + 1;
    }
    bodies
}

/// The pull of `source` on `body`.
pub fn pull(body: &Body, source: &Body) -> (p: Pull)
    requires
        position_ok(body.position),
        position_ok(source.position),
    ensures
        p == pull_of(*body, *source),
{
    let dx = source.position.x - body.position.x;
    let dy = source.position.y - body.position.y;
    let dz = source.position.z - body.position.z;
    proof {
        assert(dx * dx <= 4 * POSITION_LIMIT * POSITION_LIMIT && dy * dy <= 4 * POSITION_LIMIT
            * POSITION_LIMIT && dz * dz <= 4 * POSITION_LIMIT * POSITION_LIMIT && 0 <= dx * dx
            && 0 <= dy * dy && 0 <= dz * dz) by (nonlinear_arith)
            requires
                -2 * POSITION_LIMIT <= dx <= 2 * POSITION_LIMIT,
                -2 * POSITION_LIMIT <= dy <= 2 * POSITION_LIMIT,
                -2 * POSITION_LIMIT <= dz <= 2 * POSITION_LIMIT,
        ;
    }
    let d2 = (dx * dx) as u64 + (dy * dy) as u64 + (dz * dz) as u64;
    let distance_squared = if d2 < MIN_DISTANCE_SQUARED {
        MIN_DISTANCE_SQUARED
    } else {
        d2
    };
    Pull { strength: source.mu, offset: IVec3 { x: dx, y: dy, z: dz }, distance_squared }
}

/// The pulls on body `i`: one from every other body of nonzero strength.
pub fn pulls_on_body(bodies: &Vec<Body>, i: usize) -> (pulls: Vec<Pull>)
    requires
        i < bodies.len(),
        forall|k: int| 0 <= k < bodies.len() ==> position_ok(#[trigger] bodies[k].position),
    ensures
        pulls@ == pulls_on(bodies@, i as int),
{
    let mut pulls: Vec<Pull> = Vec::new();
    let mut j: usize = 0;
    while j < bodies.len()
        invariant
            i < bodies.len(),
            forall|k: int| 0 <= k < bodies.len() ==> position_ok(#[trigger] bodies[k].position),
            j <= bodies.len(),
            pulls@ == pulls_upto(bodies@, i as int, j as int),
        decreases bodies.len() - j,
    {
        if j != i && bodies[j].mu != 0 {
            pulls.push(pull(&bodies[i], &bodies[j]));
        }
        j = j + 1;
    }
    pulls
}

/// Computes, for every body of a snapshot, the pulls of all other bodies
/// on it, keyed by the body's entity.
pub fn compute(bodies: &Vec<Body>) -> (field: Vec<BodyPulls>)
    requires
        forall|k: int| 0 <= k < bodies.len() ==> position_ok(#[trigger] bodies[k].position),
    ensures
        field.len() == bodies.len(),
        forall|i: int|
            0 <= i < bodies.len() ==> (#[trigger] field[i]).entity == bodies[i].entity
                && field[i].pulls@ == pulls_on(bodies@, i),
{
    let mut field: Vec<BodyPulls> = Vec::new();
    let mut i: usize = 0;
    while i < bodies.len()
        invariant
            forall|k: int| 0 <= k < bodies.len() ==> position_ok(#[trigger] bodies[k].position),
            i <= bodies.len(),
            field.len() == i,
            forall|k: int|
                0 <= k < i ==> (#[trigger] field[k]).entity == bodies[k].entity
                    && field[k].pulls@ == pulls_on(bodies@, k),
        decreases bodies.len() - i,
    {
        let pulls = pulls_on_body(bodies, i);
        field.push(BodyPulls { entity: bodies[i].entity, pulls });
        i = i + 1;
    }
    field
}

proof fn lemma_no_sources_upto(s: Seq<Body>, i: int, n: int)
    requires
        n <= s.len(),
        forall|k: int| 0 <= k < s.len() ==> (#[trigger] s[k]).mu == 0,
    ensures
        pulls_upto(s, i, n) == Seq::<Pull>::empty(),
    decreases n,
{
    if n > 0 {
        lemma_no_sources_upto(s, i, n - 1);
    }
}

/// With sinks only, no body feels any pull: every acceleration is zero.
pub proof fn lemma_sinks_feel_nothing(s: Seq<Body>)
    requires
        forall|k: int| 0 <= k < s.len() ==> (#[trigger] s[k]).mu == 0,
    ensures
        forall|i: int| 0 <= i < s.len() ==> #[trigger] pulls_on(s, i) == Seq::<Pull>::empty(),
{
    assert forall|i: int| 0 <= i < s.len() implies #[trigger] pulls_on(s, i) == Seq::<
        Pull,
    >::empty() by {
        lemma_no_sources_upto(s, i, s.len() as int);
    }
}

/// One source and one sink a distance `|d|` apart along an axis: the sink
/// feels exactly one pull, of the source's strength, pointing at the
/// source, over the squared distance `d²`. Its acceleration
/// `strength · offset / (d²)^(3/2)` thus has magnitude `strength / d²`.
/// The source, pulled by no other source, feels nothing.
pub proof fn lemma_lone_source_pull(source: Body, sink: Body, d: int)
    requires
        source.mu > 0,
        sink.mu == 0,
        d != 0,
        position_ok(source.position),
        position_ok(sink.position),
        sub_of(source.position@, sink.position@) == (d, 0int, 0int) || sub_of(
            source.position@,
            sink.position@,
        ) == (0int, d, 0int) || sub_of(source.position@, sink.position@) == (0int, 0int, d),
    ensures
        pulls_on(seq![source, sink], 1) == seq![pull_of(sink, source)],
        pull_of(sink, source).strength == source.mu,
        pull_of(sink, source).offset@ == sub_of(source.position@, sink.position@),
        pull_of(sink, source).distance_squared == d * d,
        pulls_on(seq![source, sink], 0) == Seq::<Pull>::empty(),
{
    let s = seq![source, sink];
    assert(pulls_upto(s, 1, 0) == Seq::<Pull>::empty());
    assert(pulls_upto(s, 1, 1) == seq![pull_of(sink, source)]);
    assert(pulls_upto(s, 1, 2) == pulls_upto(s, 1, 1));
    assert(pulls_upto(s, 0, 0) == Seq::<Pull>::empty());
    assert(pulls_upto(s, 0, 1) == Seq::<Pull>::empty());
    assert(pulls_upto(s, 0, 2) == Seq::<Pull>::empty());
    let v = sub_of(source.position@, sink.position@);
    assert(-2 * POSITION_LIMIT <= d <= 2 * POSITION_LIMIT);
    assert(d * d >= 1 && dot_of(v, v) == d * d && d * d <= 4 * POSITION_LIMIT * POSITION_LIMIT)
        by (nonlinear_arith)
        requires
            d != 0,
            -2 * POSITION_LIMIT <= d <= 2 * POSITION_LIMIT,
            v == (d, 0int, 0int) || v == (0int, d, 0int) || v == (0int, 0int, d),
    ;
}

/// Bodies among `0..n`, other than `i`, whose pull on body `i` is `q`.
pub open spec fn sources_giving(s: Seq<Body>, i: int, q: Pull, n: int) -> Set<int> {
    Set::new(|j: int| 0 <= j < n && j != i && s[j].mu != 0 && pull_of(s[i], s[j]) == q)
}

proof fn lemma_pull_count(s: Seq<Body>, i: int, q: Pull, n: int)
    requires
        0 <= i < s.len(),
        0 <= n <= s.len(),
    ensures
        sources_giving(s, i, q, n).finite(),
        pulls_upto(s, i, n).to_multiset().count(q) == sources_giving(s, i, q, n).len(),
    decreases n,
{
    broadcast use vstd::seq_lib::to_multiset_build;
    broadcast use vstd::multiset::group_multiset_axioms;
    broadcast use vstd::set::group_set_axioms;

    if n == 0 {
        assert(sources_giving(s, i, q, n) =~= Set::<int>::empty());
        pulls_upto(s, i, n).to_multiset_ensures();
        assert(!pulls_upto(s, i, n).contains(q));
    } else {
        lemma_pull_count(s, i, q, n - 1);
        let before = sources_giving(s, i, q, n - 1);
        let j = n - 1;
        if j != i && s[j].mu != 0 && pull_of(s[i], s[j]) == q {
            assert(sources_giving(s, i, q, n) =~= before.insert(j));
            assert(!before.contains(j));
        } else {
            assert(sources_giving(s, i, q, n) =~= before);
        }
    }
}

/// The pulls that a body feels do not depend on the order of the snapshot:
/// where `t` lists the bodies of `s` in another order (`t[k] == s[p[k]]`
/// for a permutation `p`), body `k` of `t` feels the same pulls as body
/// `p[k]` of `s`, counted with multiplicity.
pub proof fn lemma_order_independent(s: Seq<Body>, t: Seq<Body>, p: Seq<int>)
    requires
        t.len() == s.len(),
        p.len() == s.len(),
        forall|k: int| 0 <= k < t.len() ==> 0 <= #[trigger] p[k] < s.len() && t[k] == s[p[k]],
        forall|k1: int, k2: int|
            0 <= k1 < p.len() && 0 <= k2 < p.len() && k1 != k2 ==> #[trigger] p[k1] != #[trigger] p[k2],
        forall|j: int| 0 <= j < s.len() ==> #[trigger] p.contains(j),
    ensures
        forall|k: int|
            0 <= k < t.len() ==> #[trigger] pulls_on(t, k).to_multiset() == pulls_on(
                s,
                p[k],
            ).to_multiset(),
{
    let n = s.len() as int;
    assert forall|k: int| 0 <= k < t.len() implies #[trigger] pulls_on(t, k).to_multiset()
        == pulls_on(s, p[k]).to_multiset() by {
        assert forall|q: Pull| #[trigger] pulls_on(t, k).to_multiset().count(q) == pulls_on(
            s,
            p[k],
        ).to_multiset().count(q) by {
            lemma_pull_count(t, k, q, n);
            lemma_pull_count(s, p[k], q, n);
            let x = sources_giving(t, k, q, n);
            let y = sources_giving(s, p[k], q, n);
            let f = |j: int| p[j];
            assert forall|a: int| #[trigger] x.map(f).contains(a) implies y.contains(a) by {
                let j = choose|j: int| x.contains(j) && f(j) == a;
                assert(p[j] != p[k]);
            }
            assert forall|a: int| y.contains(a) implies #[trigger] x.map(f).contains(a) by {
                assert(p.contains(a));
                let j = choose|j: int| 0 <= j < p.len() && #[trigger] p[j] == a;
                assert(j != k);
                assert(x.contains(j));
            }
            assert(x.map(f) =~= y);
            lemma_map_size(x, y, f);
        }
        assert(pulls_on(t, k).to_multiset() =~= pulls_on(s, p[k]).to_multiset());
    }
}

proof fn lemma_floor_upto(s: Seq<Body>, i: int, n: int)
    requires
        0 <= i < s.len(),
        n <= s.len(),
        forall|k: int| 0 <= k < s.len() ==> position_ok(#[trigger] s[k].position),
    ensures
        forall|m: int|
            0 <= m < pulls_upto(s, i, n).len() ==> #[trigger] pulls_upto(s, i, n)[m].distance_squared
                >= MIN_DISTANCE_SQUARED,
    decreases n,
{
    if n > 0 {
        lemma_floor_upto(s, i, n - 1);
        let j = n - 1;
        if j != i && s[j].mu != 0 {
            let v = sub_of(s[j].position@, s[i].position@);
            assert(position_ok(s[j].position) && position_ok(s[i].position));
            assert(0 <= dot_of(v, v) <= 12 * POSITION_LIMIT * POSITION_LIMIT) by (nonlinear_arith)
                requires
                    -2 * POSITION_LIMIT <= v.0 <= 2 * POSITION_LIMIT,
                    -2 * POSITION_LIMIT <= v.1 <= 2 * POSITION_LIMIT,
                    -2 * POSITION_LIMIT <= v.2 <= 2 * POSITION_LIMIT,
            ;
            let before = pulls_upto(s, i, n - 1);
            let now = pulls_upto(s, i, n);
            assert(now == before.push(pull_of(s[i], s[j])));
            assert(pull_of(s[i], s[j]).distance_squared >= MIN_DISTANCE_SQUARED);
            assert forall|m: int| 0 <= m < now.len() implies #[trigger] now[m].distance_squared
                >= MIN_DISTANCE_SQUARED by {
                if m < before.len() {
                    assert(now[m] == before[m]);
                }
            }
        } else {
            assert(pulls_upto(s, i, n) == pulls_upto(s, i, n - 1));
        }
    }
}

/// No pull ever has a squared distance below the floor, coincident bodies
/// included: a pull's acceleration is always finite.
pub proof fn lemma_pulls_never_degenerate(s: Seq<Body>, i: int)
    requires
        0 <= i < s.len(),
        forall|k: int| 0 <= k < s.len() ==> position_ok(#[trigger] s[k].position),
    ensures
        forall|m: int|
            0 <= m < pulls_on(s, i).len() ==> #[trigger] pulls_on(s, i)[m].distance_squared
                >= MIN_DISTANCE_SQUARED,
{
    lemma_floor_upto(s, i, s.len() as int);
}

} // verus!
