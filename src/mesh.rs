//! The cube-sphere mesher: six subdivided cube faces whose grid points are
//! later pushed out radially onto the unit sphere.
//!
//! Grid points are kept exact: a point of the cube of half-extent 1 is
//! stored multiplied by `resolution - 1`, so every coordinate is an integer.
use vstd::prelude::*;
use vstd::arithmetic::div_mod::{
    lemma_fundamental_div_mod_converse,
    lemma_mod_bound,
    lemma_div_pos_is_pos,
    lemma_multiply_divide_lt,
};
use crate::vector::{IVec3, bounded_by, yzx_of, cross_of, dot_of, yzx, cross, small_mul};

verus! {

/// The largest resolution accepted: its index count still fits in 32 bits.
pub const MAX_RESOLUTION: u32 = 10000;

/// Number of faces of the cube.
pub const FACE_COUNT: usize = 6;

/// Outward normal of face `f`, in the order `+Y, -Y, -X, +X, +Z, -Z`.
pub open spec fn direction_of(f: int) -> (int, int, int) {
    if f == 0 {
        (0, 1, 0)
    } else if f == 1 {
        (0, -1, 0)
    } else if f == 2 {
        (-1, 0, 0)
    } else if f == 3 {
        (1, 0, 0)
    } else if f == 4 {
        (0, 0, 1)
    } else {
        (0, 0, -1)
    }
}

/// Grid point `(x, y)` of the face with outward normal `up`, scaled by
/// `r - 1`: `up + (2 px - 1) a + (2 py - 1) b` with `px = x / (r - 1)`,
/// `py = y / (r - 1)`, `a = up.yzx` and `b = up × a`.
pub open spec fn cube_point(r: int, up: (int, int, int), x: int, y: int) -> (int, int, int) {
    let a = yzx_of(up);
    let b = cross_of(up, a);
    let s = r - 1;
    let px = 2 * x - s;
    let py = 2 * y - s;
    (
        up.0 * s + px * a.0 + py * b.0,
        up.1 * s + px * a.1 + py * b.1,
        up.2 * s + px * a.2 + py * b.2,
    )
}

/// Vertex `j` of a face, in raster order (rows of `r` points).
pub open spec fn face_vertex(r: int, up: (int, int, int), j: int) -> (int, int, int) {
    cube_point(r, up, j % r, j / r)
}

/// Corner `m` (0 to 5) of the two triangles of the cell whose lower-left
/// grid index is `i`: `(i, i+r+1, i+r)` then `(i, i+1, i+r+1)`.
pub open spec fn corner(r: int, i: int, m: int) -> int {
    if m == 0 || m == 3 {
        i
    } else if m == 1 || m == 5 {
        i + r + 1
    } else if m == 2 {
        i + r
    } else {
        i + 1
    }
}

/// Grid index of the lower-left point of cell `c`; cells run in rows of `r - 1`.
pub open spec fn cell_origin(r: int, c: int) -> int {
    c % (r - 1) + (c / (r - 1)) * r
}

/// Entry `k` of a face's triangle list, local to the face.
pub open spec fn face_index(r: int, k: int) -> int {
    corner(r, cell_origin(r, k / 6), k % 6)
}

/// Vertices per face.
pub open spec fn face_vertex_count(r: int) -> int {
    r * r
}

/// Triangle-list entries per face: two triangles per cell.
pub open spec fn face_index_count(r: int) -> int {
    6 * ((r - 1) * (r - 1))
}

/// Vertex `k` of the whole mesh: faces one after another.
pub open spec fn mesh_vertex(r: int, k: int) -> (int, int, int) {
    face_vertex(r, direction_of(k / face_vertex_count(r)), k % face_vertex_count(r))
}

/// Entry `k` of the whole triangle list: each face's entries offset by
/// the face ordinal times the vertices per face.
pub open spec fn mesh_index(r: int, k: int) -> int {
    (k / face_index_count(r)) * face_vertex_count(r) + face_index(r, k % face_index_count(r))
}

/// A resolution the mesher builds.
pub open spec fn valid_resolution(r: int) -> bool {
    2 <= r <= MAX_RESOLUTION
}

proof fn lemma_counts(r: int)
    requires
        valid_resolution(r),
    ensures
        4 <= face_vertex_count(r) <= 100_000_000,
        6 <= face_index_count(r) <= 600_000_000,
{
    assert(4 <= r * r <= 100_000_000) by (nonlinear_arith)
        requires
            2 <= r <= 10000,
    ;
    assert(1 <= (r - 1) * (r - 1) <= 100_000_000) by (nonlinear_arith)
        requires
            2 <= r <= 10000,
    ;
}

/// Outward normal of face `f`.
pub fn direction(f: usize) -> (d: IVec3)
    requires
        f < FACE_COUNT,
    ensures
        d@ == direction_of(f as int),
{
    if f == 0 {
        IVec3 { x: 0, y: 1, z: 0 }
    } else if f == 1 {
        IVec3 { x: 0, y: -1, z: 0 }
    } else if f == 2 {
        IVec3 { x: -1, y: 0, z: 0 }
    } else if f == 3 {
        IVec3 { x: 1, y: 0, z: 0 }
    } else if f == 4 {
        IVec3 { x: 0, y: 0, z: 1 }
    } else {
        IVec3 { x: 0, y: 0, z: -1 }
    }
}

fn grid_point(resolution: u32, up: IVec3, a: IVec3, b: IVec3, x: u32, y: u32) -> (p: IVec3)
    requires
        valid_resolution(resolution as int),
        bounded_by(up@, 1),
        bounded_by(a@, 1),
        bounded_by(b@, 2),
        a@ == yzx_of(up@),
        b@ == cross_of(up@, a@),
        x < resolution,
        y < resolution,
    ensures
        p@ == cube_point(resolution as int, up@, x as int, y as int),
{
    let s = resolution as i64 - 1;
    let px = 2 * (x as i64) - s;
    let py = 2 * (y as i64) - s;
    let px_ = small_mul(up.x, s) + small_mul(a.x, px) + small_mul(b.x, py);
    let py_ = small_mul(up.y, s) + small_mul(a.y, px) + small_mul(b.y, py);
    let pz_ = small_mul(up.z, s) + small_mul(a.z, px) + small_mul(b.z, py);
    IVec3 { x: px_, y: py_, z: pz_ }
}

/// Builds one face: its `resolution²` grid points in raster order, and its
/// triangle list with indices local to the face.
pub fn face(resolution: u32, local_up: IVec3) -> (out: (Vec<IVec3>, Vec<u32>))
    requires
        valid_resolution(resolution as int),
        bounded_by(local_up@, 1),
    ensures
        out.0.len() == face_vertex_count(resolution as int),
        forall|j: int|
            0 <= j < out.0.len() ==> (#[trigger] out.0[j])@ == face_vertex(
                resolution as int,
                local_up@,
                j,
            ),
        out.1.len() == face_index_count(resolution as int),
        forall|k: int|
            0 <= k < out.1.len() ==> #[trigger] out.1[k] as int == face_index(resolution as int, k),
{
    let ghost r = resolution as int;
    proof {
        lemma_counts(r);
    }
    let axis_a = yzx(local_up);
    let axis_b = cross(local_up, axis_a);
    let count = resolution * resolution;
    let mut vertices: Vec<IVec3> = Vec::new();
    let mut j: u32 = 0;
    while j < count
        invariant
            count as int == face_vertex_count(r),
            valid_resolution(r),
            resolution as int == r,
            bounded_by(local_up@, 1),
            axis_a@ == yzx_of(local_up@),
            axis_b@ == cross_of(local_up@, axis_a@),
            bounded_by(axis_a@, 1),
            bounded_by(axis_b@, 2),
            j <= count,
            vertices.len() == j,
            forall|i: int|
                0 <= i < j ==> (#[trigger] vertices[i])@ == face_vertex(r, local_up@, i),
        decreases count - j,
    {
        proof {
            lemma_mod_bound(j as int, r);
            lemma_multiply_divide_lt(j as int, r, r);
        }
        let p = grid_point(resolution, local_up, axis_a, axis_b, j % resolution, j / resolution);
        vertices.push(p);
        j = j + 1;
    }
    let cells = (resolution - 1) * (resolution - 1);
    let w = resolution - 1;
    let mut triangles: Vec<u32> = Vec::new();
    let mut c: u32 = 0;
    while c < cells
        invariant
            cells as int == (r - 1) * (r - 1),
            w as int == r - 1,
            valid_resolution(r),
            resolution as int == r,
            c <= cells,
            triangles.len() == 6 * c,
            forall|k: int| 0 <= k < 6 * c ==> #[trigger] triangles[k] as int == face_index(r, k),
        decreases cells - c,
    {
        let x = c % w;
        let y = c / w;
        proof {
            lemma_mod_bound(c as int, w as int);
            lemma_multiply_divide_lt(c as int, w as int, w as int);
            assert(x + y * r + r + 1 <= r * r - 1) by (nonlinear_arith)
                requires
                    0 <= x <= r - 2,
                    0 <= y <= r - 2,
                    2 <= r,
            ;
            assert(r * r <= 100_000_000) by (nonlinear_arith)
                requires
                    2 <= r <= 10000,
            ;
            assert(y * r <= r * r) by (nonlinear_arith)
                requires
                    0 <= y <= r - 2,
                    2 <= r,
            ;
        }
        let i = x + y * resolution;
        let ghost before = triangles@;
        triangles.push(i);
        triangles.push(i + resolution + 1);
        triangles.push(i + resolution);
        triangles.push(i);
        triangles.push(i + 1);
        triangles.push(i + resolution + 1);
        proof {
            assert forall|k: int| 0 <= k < 6 * (c + 1) implies #[trigger] triangles[k] as int
                == face_index(r, k) by {
                if k >= 6 * c {
                    let m = k - 6 * c;
                    lemma_fundamental_div_mod_converse(k, 6, c as int, m);
                    assert(cell_origin(r, c as int) == i);
                } else {
                    assert(triangles[k] == before[k]);
                }
            }
        }
        c = c + 1;
    }
    (vertices, triangles)
}

/// Why a mesh could not be built.
#[derive(Clone, Copy, Debug, PartialEq, Eq, Structural)]
pub enum MeshError {
    /// Fewer than two grid lines per face: no cell, no triangle.
    ResolutionTooSmall,
    /// More than `MAX_RESOLUTION` grid lines per face.
    ResolutionTooLarge,
}

/// A cube-sphere mesh before projection: the grid points of the six faces,
/// each scaled by `resolution - 1`, and one triangle list over all of them.
pub struct CubeSphere {
    pub resolution: u32,
    pub vertices: Vec<IVec3>,
    pub indices: Vec<u32>,
}

impl CubeSphere {
    /// The vertices and indices are exactly those of the resolution.
    pub open spec fn wf(&self) -> bool {
        let r = self.resolution as int;
        &&& valid_resolution(r)
        &&& self.vertices.len() == 6 * face_vertex_count(r)
        &&& forall|k: int|
            0 <= k < self.vertices.len() ==> (#[trigger] self.vertices[k])@ == mesh_vertex(r, k)
        &&& self.indices.len() == 6 * face_index_count(r)
        &&& forall|k: int|
            0 <= k < self.indices.len() ==> #[trigger] self.indices[k] as int == mesh_index(r, k)
    }

    /// Number of triangles: each run of three indices.
    pub fn triangle_count(&self) -> (n: usize)
        requires
            self.wf(),
        ensures
            n as int == 12 * ((self.resolution as int - 1) * (self.resolution as int - 1)),
    {
        self.indices.len() / 3
    }
}

/// Builds the cube-sphere mesh of a resolution: the six faces in the order
/// of `direction`, vertices concatenated, and each face's triangle indices
/// offset by its ordinal times `resolution²`.
pub fn generate(resolution: u32) -> (out: Result<CubeSphere, MeshError>)
    ensures
        resolution < 2 <==> out == Err::<CubeSphere, MeshError>(MeshError::ResolutionTooSmall),
        resolution > MAX_RESOLUTION <==> out == Err::<CubeSphere, MeshError>(
            MeshError::ResolutionTooLarge,
        ),
        out is Ok <==> valid_resolution(resolution as int),
        out matches Ok(m) ==> m.resolution == resolution && m.wf(),
{
    if resolution < 2 {
        return Err(MeshError::ResolutionTooSmall);
    }
    if resolution > MAX_RESOLUTION {
        return Err(MeshError::ResolutionTooLarge);
    }
    let ghost r = resolution as int;
    proof {
        lemma_counts(r);
    }
    let per_face = resolution * resolution;
    let per_face_indices = 6 * ((resolution - 1) * (resolution - 1));
    let ghost nv = face_vertex_count(r);
    let ghost ni = face_index_count(r);
    let mut vertices: Vec<IVec3> = Vec::new();
    let mut indices: Vec<u32> = Vec::new();
    let mut f: usize = 0;
    while f < FACE_COUNT
        invariant
            valid_resolution(r),
            resolution as int == r,
            per_face as int == nv,
            per_face_indices as int == ni,
            nv == face_vertex_count(r),
            ni == face_index_count(r),
            4 <= nv <= 100_000_000,
            6 <= ni <= 600_000_000,
            f <= FACE_COUNT,
            vertices.len() == f * nv,
            indices.len() == f * ni,
            forall|k: int| 0 <= k < vertices.len() ==> (#[trigger] vertices[k])@ == mesh_vertex(r, k),
            forall|k: int| 0 <= k < indices.len() ==> #[trigger] indices[k] as int == mesh_index(r, k),
        decreases FACE_COUNT - f,
    {
        let up = direction(f);
        let (face_vertices, face_indices) = face(resolution, up);
        proof {
            assert(f * nv <= 5 * nv && (f + 1) * nv == f * nv + nv && (f + 1) * ni == f * ni + ni)
                by (nonlinear_arith)
                requires
                    f < 6,
                    0 <= nv,
            ;
        }
        let offset = (f as u32) * per_face;
        let mut j: usize = 0;
        while j < face_vertices.len()
            invariant
                face_vertices.len() == nv,
                forall|i: int|
                    0 <= i < nv ==> (#[trigger] face_vertices[i])@ == face_vertex(r, up@, i),
                up@ == direction_of(f as int),
                f < FACE_COUNT,
                nv == face_vertex_count(r),
                4 <= nv,
                j <= nv,
                vertices.len() == f * nv + j,
                forall|k: int|
                    0 <= k < vertices.len() ==> (#[trigger] vertices[k])@ == mesh_vertex(r, k),
            decreases nv - j,
        {
            proof {
                lemma_fundamental_div_mod_converse(f * nv + j, nv, f as int, j as int);
            }
            vertices.push(face_vertices[j]);
            j = j + 1;
        }
        let mut j: usize = 0;
        while j < face_indices.len()
            invariant
                face_indices.len() == ni,
                forall|i: int| 0 <= i < ni ==> #[trigger] face_indices[i] as int == face_index(r, i),
                valid_resolution(r),
                f < FACE_COUNT,
                offset as int == f * nv,
                f * nv <= 5 * nv,
                nv == face_vertex_count(r),
                ni == face_index_count(r),
                4 <= nv <= 100_000_000,
                6 <= ni,
                j <= ni,
                indices.len() == f * ni + j,
                forall|k: int| 0 <= k < indices.len() ==> #[trigger] indices[k] as int == mesh_index(r, k),
            decreases ni - j,
        {
            proof {
                lemma_fundamental_div_mod_converse(f * ni + j, ni, f as int, j as int);
                lemma_face_index_in_face(r, j as int);
            }
            indices.push(face_indices[j] + offset);
            j = j + 1;
        }
        f = f + 1;
    }
    Ok(CubeSphere { resolution, vertices, indices })
}

/// Every local index of a face addresses one of that face's own vertices.
pub proof fn lemma_face_index_in_face(r: int, k: int)
    requires
        valid_resolution(r),
        0 <= k < face_index_count(r),
    ensures
        0 <= face_index(r, k) < face_vertex_count(r),
{
    let c = k / 6;
    lemma_multiply_divide_lt(k, 6, (r - 1) * (r - 1));
    lemma_mod_bound(c, r - 1);
    lemma_multiply_divide_lt(c, r - 1, r - 1);
    let x = c % (r - 1);
    let y = c / (r - 1);
    assert(x + y * r + r + 1 <= r * r - 1) by (nonlinear_arith)
        requires
            0 <= x <= r - 2,
            0 <= y <= r - 2,
            2 <= r,
    ;
    assert(0 <= y * r) by (nonlinear_arith)
        requires
            0 <= y,
            2 <= r,
    ;
}

/// Each face's triangle indices lie in that face's own slice of the
/// vertex list: entries of face `f` address vertices `f·r²` to `(f+1)·r² - 1`,
/// so every index of one face is below every index of the next.
pub proof fn lemma_faces_index_own_slice(m: &CubeSphere)
    requires
        m.wf(),
    ensures
        forall|k: int|
            0 <= k < m.indices.len() ==> {
                let f = k / face_index_count(m.resolution as int);
                let nv = face_vertex_count(m.resolution as int);
                f * nv <= #[trigger] m.indices[k] < (f + 1) * nv
            },
{
    let r = m.resolution as int;
    let nv = face_vertex_count(r);
    let ni = face_index_count(r);
    lemma_counts(r);
    assert forall|k: int| 0 <= k < m.indices.len() implies {
        let f = k / ni;
        f * nv <= #[trigger] m.indices[k] < (f + 1) * nv
    } by {
        lemma_multiply_divide_lt(k, ni, 6);
        lemma_div_pos_is_pos(k, ni);
        lemma_mod_bound(k, ni);
        lemma_face_index_in_face(r, k % ni);
        let f = k / ni;
        assert((f + 1) * nv == f * nv + nv) by (nonlinear_arith);
    }
}

/// Every triangle index addresses a vertex of the mesh, and the list holds
/// six entries for each of the `(r-1)²` cells of each of the six faces.
pub proof fn lemma_indices_in_bounds(m: &CubeSphere)
    requires
        m.wf(),
    ensures
        m.indices.len() == 6 * ((m.resolution as int - 1) * (m.resolution as int - 1)) * 6,
        forall|k: int| 0 <= k < m.indices.len() ==> #[trigger] m.indices[k] < m.vertices.len(),
{
    let r = m.resolution as int;
    let nv = face_vertex_count(r);
    let ni = face_index_count(r);
    lemma_faces_index_own_slice(m);
    assert forall|k: int| 0 <= k < m.indices.len() implies #[trigger] m.indices[k]
        < m.vertices.len() by {
        let f = k / ni;
        lemma_multiply_divide_lt(k, ni, 6);
        assert(f * nv <= m.indices[k] < (f + 1) * nv);
        assert((f + 1) * nv <= 6 * nv) by (nonlinear_arith)
            requires
                f < 6,
                0 <= nv,
        ;
    }
}

/// The unprojected grid point `(x, y)` of face `f` lies on that face of the
/// cube of half-extent `r - 1`: its component along the face normal is
/// `r - 1` and no component exceeds `r - 1` in size. So it is never the
/// origin, and projecting it onto the unit sphere is always defined.
pub proof fn lemma_cube_point_on_face(r: int, f: int, x: int, y: int)
    requires
        valid_resolution(r),
        0 <= f < 6,
        0 <= x < r,
        0 <= y < r,
    ensures
        dot_of(direction_of(f), cube_point(r, direction_of(f), x, y)) == r - 1,
        bounded_by(cube_point(r, direction_of(f), x, y), r - 1),
{
    let s = r - 1;
    let px = 2 * x - s;
    let py = 2 * y - s;
    let p = cube_point(r, direction_of(f), x, y);
    if f == 0 {
        assert(cube_point(r, (0int, 1int, 0int), x, y) == (px, s, -py)) by (nonlinear_arith)
            requires
                s == r - 1,
                px == 2 * x - s,
                py == 2 * y - s,
        ;
        assert(dot_of((0int, 1int, 0int), (px, s, -py)) == s) by (nonlinear_arith);
    } else if f == 1 {
        assert(cube_point(r, (0int, -1int, 0int), x, y) == (-px, -s, -py)) by (nonlinear_arith)
            requires
                s == r - 1,
                px == 2 * x - s,
                py == 2 * y - s,
        ;
        assert(dot_of((0int, -1int, 0int), (-px, -s, -py)) == s) by (nonlinear_arith);
    } else if f == 2 {
        assert(cube_point(r, (-1int, 0int, 0int), x, y) == (-s, -py, -px)) by (nonlinear_arith)
            requires
                s == r - 1,
                px == 2 * x - s,
                py == 2 * y - s,
        ;
        assert(dot_of((-1int, 0int, 0int), (-s, -py, -px)) == s) by (nonlinear_arith);
    } else if f == 3 {
        assert(cube_point(r, (1int, 0int, 0int), x, y) == (s, -py, px)) by (nonlinear_arith)
            requires
                s == r - 1,
                px == 2 * x - s,
                py == 2 * y - s,
        ;
        assert(dot_of((1int, 0int, 0int), (s, -py, px)) == s) by (nonlinear_arith);
    } else if f == 4 {
        assert(cube_point(r, (0int, 0int, 1int), x, y) == (-py, px, s)) by (nonlinear_arith)
            requires
                s == r - 1,
                px == 2 * x - s,
                py == 2 * y - s,
        ;
        assert(dot_of((0int, 0int, 1int), (-py, px, s)) == s) by (nonlinear_arith);
    } else {
        assert(cube_point(r, (0int, 0int, -1int), x, y) == (-py, -px, -s)) by (nonlinear_arith)
            requires
                s == r - 1,
                px == 2 * x - s,
                py == 2 * y - s,
        ;
        assert(dot_of((0int, 0int, -1int), (-py, -px, -s)) == s) by (nonlinear_arith);
    }
}

/// Every vertex of a mesh lies on the face of the scaled cube that it
/// belongs to.
pub proof fn lemma_vertices_on_cube(m: &CubeSphere)
    requires
        m.wf(),
    ensures
        forall|k: int|
            0 <= k < m.vertices.len() ==> {
                let f = k / face_vertex_count(m.resolution as int);
                &&& dot_of(direction_of(f), (#[trigger] m.vertices[k])@) == m.resolution - 1
                &&& bounded_by(m.vertices[k]@, m.resolution - 1)
            },
{
    let r = m.resolution as int;
    let nv = face_vertex_count(r);
    lemma_counts(r);
    assert forall|k: int| 0 <= k < m.vertices.len() implies {
        let f = k / nv;
        &&& dot_of(direction_of(f), (#[trigger] m.vertices[k])@) == m.resolution - 1
        &&& bounded_by(m.vertices[k]@, m.resolution - 1)
    } by {
        lemma_multiply_divide_lt(k, nv, 6);
        lemma_div_pos_is_pos(k, nv);
        let j = k % nv;
        lemma_mod_bound(k, nv);
        lemma_mod_bound(j, r);
        lemma_multiply_divide_lt(j, r, r);
        lemma_cube_point_on_face(r, k / nv, j % r, j / r);
    }
}

} // verus!
