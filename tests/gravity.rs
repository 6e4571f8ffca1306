use space_golf::gravity::{
    compute, pull, rebuild, strength, Body, PointMass, Pull, Tagged, G, MIN_DISTANCE_SQUARED,
};
use space_golf::vector::IVec3;

fn body(x: i64, y: i64, z: i64, mu: u64, entity: u64) -> Body {
    Body::new(IVec3::new(x, y, z), mu, entity)
}

fn acceleration(pulls: &[Pull]) -> [f64; 3] {
    let mut a = [0.0f64; 3];
    for p in pulls {
        let d = (p.distance_squared as f64).sqrt();
        let k = p.strength as f64 / (p.distance_squared as f64 * d);
        a[0] += k * p.offset.x as f64;
        a[1] += k * p.offset.y as f64;
        a[2] += k * p.offset.z as f64;
    }
    a
}

#[test]
fn sinks_only_give_zero_acceleration() {
    let bodies = vec![body(0, 0, 0, 0, 1), body(10, 3, 0, 0, 2), body(-4, 7, 1, 0, 3)];
    let field = compute(&bodies);
    assert_eq!(field.len(), 3);
    for (f, b) in field.iter().zip(&bodies) {
        assert_eq!(f.entity, b.entity);
        assert!(f.pulls.is_empty());
        assert_eq!(acceleration(&f.pulls), [0.0, 0.0, 0.0]);
    }
}

#[test]
fn lone_source_pulls_sink_by_inverse_square() {
    let s = 3000u64;
    let bodies = vec![body(0, 0, 0, s, 1), body(5, 0, 0, 0, 2)];
    let field = compute(&bodies);
    assert!(field[0].pulls.is_empty());
    assert_eq!(
        field[1].pulls,
        vec![Pull { strength: s, offset: IVec3::new(-5, 0, 0), distance_squared: 25 }]
    );
    let a = acceleration(&field[1].pulls);
    assert!((a[0] + s as f64 / 25.0).abs() < 1e-9);
    assert_eq!(a[1], 0.0);
    assert_eq!(a[2], 0.0);
}

#[test]
fn lone_source_along_negative_z() {
    let bodies = vec![body(0, 2, -7, 0, 9), body(0, 2, 1, 800, 4)];
    let field = compute(&bodies);
    assert_eq!(
        field[0].pulls,
        vec![Pull { strength: 800, offset: IVec3::new(0, 0, 8), distance_squared: 64 }]
    );
    let a = acceleration(&field[0].pulls);
    assert!((a[2] - 800.0 / 64.0).abs() < 1e-9);
}

#[test]
fn permuted_snapshot_gives_same_pulls() {
    let a = body(0, 0, 0, 5000, 1);
    let b = body(30, -4, 0, 0, 2);
    let c = body(-12, 9, 2, 7000, 3);
    let first = compute(&vec![a, b, c]);
    let second = compute(&vec![c, a, b]);
    for f in &first {
        let g = second.iter().find(|g| g.entity == f.entity).unwrap();
        let mut x = f.pulls.clone();
        let mut y = g.pulls.clone();
        x.sort_by_key(|p| (p.strength, p.offset.x, p.offset.y, p.offset.z));
        y.sort_by_key(|p| (p.strength, p.offset.x, p.offset.y, p.offset.z));
        assert_eq!(x, y);
    }
}

#[test]
fn coincident_sources_stay_finite() {
    let bodies = vec![body(4, 4, 0, 1000, 1), body(4, 4, 0, 2000, 2)];
    let field = compute(&bodies);
    for f in &field {
        assert_eq!(f.pulls.len(), 1);
        assert_eq!(f.pulls[0].distance_squared, MIN_DISTANCE_SQUARED);
        let acc = acceleration(&f.pulls);
        assert!(acc.iter().all(|v| v.is_finite()));
    }
}

#[test]
fn strength_is_mass_times_constant() {
    assert_eq!(strength(&PointMass::HasGravity { mass: 20 }), 20 * G);
    assert_eq!(strength(&PointMass::HasGravity { mass: 1_000_000 }), 1_000_000_000);
    assert_eq!(strength(&PointMass::HasGravity { mass: u32::MAX }), u32::MAX as u64 * 1000);
    assert_eq!(strength(&PointMass::AffectedByGravity), 0);
}

#[test]
fn rebuild_keeps_sinks_and_order() {
    let tagged = vec![
        Tagged {
            position: IVec3::new(-300, -50, 1),
            point_mass: PointMass::HasGravity { mass: 1_000_000 },
            entity: 7,
        },
        Tagged { position: IVec3::new(12, 5, 0), point_mass: PointMass::AffectedByGravity, entity: 8 },
    ];
    let bodies = rebuild(&tagged);
    assert_eq!(
        bodies,
        vec![body(-300, -50, 1, 1_000_000_000, 7), body(12, 5, 0, 0, 8)]
    );
}

#[test]
fn pull_points_at_source() {
    let p = pull(&body(1, 2, 3, 0, 1), &body(4, 6, 3, 50, 2));
    assert_eq!(p, Pull { strength: 50, offset: IVec3::new(3, 4, 0), distance_squared: 25 });
}

#[test]
fn sources_pull_each_other_and_sinks_pull_nothing() {
    let bodies = vec![body(0, 0, 0, 10, 1), body(0, 3, 4, 20, 2), body(6, 8, 0, 0, 3)];
    let field = compute(&bodies);
    assert_eq!(
        field[0].pulls,
        vec![Pull { strength: 20, offset: IVec3::new(0, 3, 4), distance_squared: 25 }]
    );
    assert_eq!(
        field[1].pulls,
        vec![Pull { strength: 10, offset: IVec3::new(0, -3, -4), distance_squared: 25 }]
    );
    assert_eq!(field[2].pulls.len(), 2);
    assert_eq!(field[2].pulls[0].offset, IVec3::new(-6, -8, 0));
    assert_eq!(field[2].pulls[0].distance_squared, 100);
}
