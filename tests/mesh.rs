use space_golf::mesh::{direction, face, generate, MeshError, MAX_RESOLUTION};
use space_golf::vector::IVec3;

#[test]
fn smallest_cube_has_one_quad_per_face() {
    let m = generate(2).unwrap();
    assert_eq!(m.vertices.len(), 24);
    assert_eq!(m.indices.len(), 36);
    assert_eq!(m.triangle_count(), 12);
}

#[test]
fn resolution_below_two_is_rejected() {
    assert!(matches!(generate(0), Err(MeshError::ResolutionTooSmall)));
    assert!(matches!(generate(1), Err(MeshError::ResolutionTooSmall)));
}

#[test]
fn resolution_above_limit_is_rejected() {
    assert!(matches!(generate(MAX_RESOLUTION + 1), Err(MeshError::ResolutionTooLarge)));
    assert!(matches!(generate(u32::MAX), Err(MeshError::ResolutionTooLarge)));
}

#[test]
fn faces_are_offset_at_resolution_ten() {
    let m = generate(10).unwrap();
    let per_face = 6 * 9 * 9;
    let face0 = &m.indices[..per_face];
    let face1 = &m.indices[per_face..2 * per_face];
    let max0 = *face0.iter().max().unwrap();
    let min1 = *face1.iter().min().unwrap();
    assert_eq!(max0, 99);
    assert_eq!(min1, 100);
    assert!(max0 < min1);
}

#[test]
fn indices_stay_in_bounds_with_expected_count() {
    for r in 2u32..8 {
        let m = generate(r).unwrap();
        let r = r as usize;
        assert_eq!(m.vertices.len(), 6 * r * r);
        assert_eq!(m.indices.len(), 6 * (r - 1) * (r - 1) * 6);
        for &i in &m.indices {
            assert!((i as usize) < m.vertices.len());
        }
    }
}

#[test]
fn vertices_project_onto_unit_sphere() {
    for r in 2u32..7 {
        let m = generate(r).unwrap();
        let s = (r - 1) as i64;
        for v in &m.vertices {
            let largest = v.x.abs().max(v.y.abs()).max(v.z.abs());
            assert_eq!(largest, s);
            let len = ((v.x * v.x + v.y * v.y + v.z * v.z) as f64).sqrt();
            let (x, y, z) = (v.x as f64 / len, v.y as f64 / len, v.z as f64 / len);
            let unit = (x * x + y * y + z * z).sqrt();
            assert!((unit - 1.0).abs() < 1e-9);
        }
    }
}

#[test]
fn top_face_at_resolution_two() {
    let (vertices, triangles) = face(2, IVec3::new(0, 1, 0));
    assert_eq!(
        vertices,
        vec![
            IVec3::new(-1, 1, 1),
            IVec3::new(1, 1, 1),
            IVec3::new(-1, 1, -1),
            IVec3::new(1, 1, -1),
        ]
    );
    assert_eq!(triangles, vec![0, 3, 2, 0, 1, 3]);
}

#[test]
fn face_triangles_at_resolution_three() {
    let (vertices, triangles) = face(3, IVec3::new(1, 0, 0));
    assert_eq!(vertices.len(), 9);
    assert_eq!(vertices[0], IVec3::new(2, 2, -2));
    assert_eq!(vertices[4], IVec3::new(2, 0, 0));
    assert_eq!(vertices[8], IVec3::new(2, -2, 2));
    assert_eq!(
        triangles,
        vec![
            0, 4, 3, 0, 1, 4, //
            1, 5, 4, 1, 2, 5, //
            3, 7, 6, 3, 4, 7, //
            4, 8, 7, 4, 5, 8,
        ]
    );
}

#[test]
fn directions_in_face_order() {
    let expected = [
        IVec3::new(0, 1, 0),
        IVec3::new(0, -1, 0),
        IVec3::new(-1, 0, 0),
        IVec3::new(1, 0, 0),
        IVec3::new(0, 0, 1),
        IVec3::new(0, 0, -1),
    ];
    for (f, d) in expected.iter().enumerate() {
        assert_eq!(direction(f), *d);
    }
}

#[test]
fn mesh_vertices_follow_face_order() {
    let m = generate(2).unwrap();
    for f in 0..6 {
        let (vertices, triangles) = face(2, direction(f));
        assert_eq!(&m.vertices[4 * f..4 * f + 4], &vertices[..]);
        for (k, t) in triangles.iter().enumerate() {
            assert_eq!(m.indices[6 * f + k], t + 4 * f as u32);
        }
    }
}
