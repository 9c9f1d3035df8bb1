//! Mesh assembly: from contours, through a fill tessellator, to a renderable glyph mesh.
use vstd::prelude::*;

use crate::geometry::{Bounds, Outline, Point};
use crate::path::{build_contours, contour_seqs, lemma_contour_count, Contour};

verus! {

/// An exact fraction `num / den`; `den` is positive.
#[derive(Clone, Copy, Debug, PartialEq, Eq, Structural)]
pub struct Fraction {
    pub num: i64,
    pub den: i64,
}

/// Texture coordinates of one vertex.
#[derive(Clone, Copy, Debug, PartialEq, Eq, Structural)]
pub struct Uv {
    pub u: Fraction,
    pub v: Fraction,
}

/// A unit vector along one of the axes, or zero.
#[derive(Clone, Copy, Debug, PartialEq, Eq, Structural)]
pub struct Normal {
    pub x: i8,
    pub y: i8,
    pub z: i8,
}

/// The normal given to every vertex of a glyph mesh: out of the glyph's plane.
pub open spec fn face_normal() -> Normal {
    Normal { x: 0, y: 0, z: 1 }
}

/// What a fill tessellator hands back for a set of contours (nonzero fill rule):
/// vertex positions in font design units and triangles as triples of vertex indices.
#[derive(Clone, Debug)]
pub struct Tessellation {
    pub positions: Vec<Point>,
    pub indices: Vec<u32>,
}

/// Vertex and index buffers of one glyph, ready for upload.
#[derive(Clone, Debug)]
pub struct GlyphMeshData {
    pub positions: Vec<Point>,
    pub normals: Vec<Normal>,
    pub uvs: Vec<Uv>,
    pub indices: Vec<u32>,
}

/// An assembled glyph mesh with the unscaled size of the glyph's bounding box.
#[derive(Clone, Debug)]
pub struct GlyphMesh {
    pub mesh: GlyphMeshData,
    pub width: i64,
    pub height: i64,
}

/// A reference to a mesh held by the mesh storage.
#[derive(Clone, Copy, Debug, PartialEq, Eq, Hash, Structural)]
pub struct MeshHandle {
    pub id: u64,
}

/// The renderer's side of mesh building: a planar fill tessellator and a mesh store.
pub trait MeshBackend {
    /// Fills `contours` under the nonzero rule; `None` where the tessellator fails.
    fn tessellate(&mut self, contours: &Vec<Contour>) -> Option<Tessellation>;

    /// Stores `mesh` and returns a handle to it.
    fn add_mesh(&mut self, mesh: GlyphMeshData) -> MeshHandle;
}

/// Why no mesh could be made for a glyph.
#[derive(Clone, Copy, Debug, PartialEq, Eq, Structural)]
pub enum MeshError {
    /// The glyph has no outline, or an outline without curves (a space).
    NoOutline,
    /// The tessellator could not fill the glyph's contours.
    TessellationFailed,
}

/// The texture coordinates of `p` inside the box `b`:
/// `((x - min_x) / width, 1 - (y - min_y) / height)`, so that the top of the glyph
/// maps to `v = 0`; `(0, 0)` where the box has no width or no height.
pub open spec fn uv_of(p: Point, b: Bounds) -> Uv {
    if b.width() == 0 || b.height() == 0 {
        Uv { u: Fraction { num: 0, den: 1 }, v: Fraction { num: 0, den: 1 } }
    } else {
        Uv {
            u: Fraction { num: (p.x - b.lo_x()) as i64, den: b.width() as i64 },
            v: Fraction { num: (b.height() - (p.y - b.lo_y())) as i64, den: b.height() as i64 },
        }
    }
}

/// The texture coordinates of `p` inside the box `b` (see `uv_of`).
pub fn vertex_uv(p: Point, b: Bounds) -> (r: Uv)
    ensures
        r == uv_of(p, b),
        r.u.den > 0 && r.v.den > 0,
{
    let (lo_x, hi_x) = if b.min.x <= b.max.x {
        (b.min.x as i64, b.max.x as i64)
    } else {
        (b.max.x as i64, b.min.x as i64)
    };
    let (lo_y, hi_y) = if b.min.y <= b.max.y {
        (b.min.y as i64, b.max.y as i64)
    } else {
        (b.max.y as i64, b.min.y as i64)
    };
    let width = hi_x - lo_x;
    let height = hi_y - lo_y;
    if width == 0 || height == 0 {
        Uv { u: Fraction { num: 0, den: 1 }, v: Fraction { num: 0, den: 1 } }
    } else {
        let px = p.x as i64;
        let py = p.y as i64;
        Uv {
            u: Fraction { num: px - lo_x, den: width },
            v: Fraction { num: height - (py - lo_y), den: height },
        }
    }
}

/// `m` is the mesh assembled from `t` in the box `b`: the same vertices, each with
/// the face normal and its texture coordinates, and every triangle's winding
/// reversed (the index list read backwards).
pub open spec fn is_assembly_of(m: GlyphMeshData, t: Tessellation, b: Bounds) -> bool {
    let n = t.positions@.len();
    let k = t.indices@.len();
    &&& m.positions@ == t.positions@
    &&& m.normals@.len() == n
    &&& m.uvs@.len() == n
    &&& forall|i: int| 0 <= i < n ==> #[trigger] m.normals@[i] == face_normal()
    &&& forall|i: int| 0 <= i < n ==> #[trigger] m.uvs@[i] == uv_of(t.positions@[i], b)
    &&& m.indices@.len() == k
    &&& forall|i: int| 0 <= i < k ==> #[trigger] m.indices@[i] == t.indices@[k - 1 - i]
}

/// Builds the glyph mesh from a tessellation of its contours and its bounding box.
pub fn assemble_mesh(t: Tessellation, b: Bounds) -> (m: GlyphMeshData)
    ensures
        is_assembly_of(m, t, b),
        b.width() == 0 || b.height() == 0 ==> forall|i: int|
            0 <= i < m.uvs@.len() ==> (#[trigger] m.uvs@[i]).u.num == 0 && m.uvs@[i].v.num == 0,
        forall|i: int| 0 <= i < m.uvs@.len() ==> (#[trigger] m.uvs@[i]).u.den > 0 && m.uvs@[i].v.den > 0,
{
    let n = t.positions.len();
    let mut normals: Vec<Normal> = Vec::new();
    let mut uvs: Vec<Uv> = Vec::new();
    let mut i: usize = 0;
    while i < n
        invariant
            n == t.positions@.len(),
            i <= n,
            normals@.len() == i,
            uvs@.len() == i,
            forall|j: int| 0 <= j < i ==> #[trigger] normals@[j] == face_normal(),
            forall|j: int| 0 <= j < i ==> #[trigger] uvs@[j] == uv_of(t.positions@[j], b),
            forall|j: int| 0 <= j < i ==> (#[trigger] uvs@[j]).u.den > 0 && uvs@[j].v.den > 0,
        decreases n - i,
    {
        normals.push(Normal { x: 0, y: 0, z: 1 });
        uvs.push(vertex_uv(t.positions[i], b));
        i += 1;
    }
    let k = t.indices.len();
    let mut indices: Vec<u32> = Vec::new();
    let mut j: usize = k;
    while j > 0
        invariant
            k == t.indices@.len(),
            j <= k,
            indices@.len() == k - j,
            forall|q: int| 0 <= q < k - j ==> #[trigger] indices@[q] == t.indices@[k - 1 - q],
        decreases j,
    {
        j -= 1;
        indices.push(t.indices[j]);
    }
    GlyphMeshData { positions: t.positions, normals, uvs, indices }
}

/// Builds the mesh of a glyph from its outline: reconstructs the contours, has the
/// backend fill them and assembles the result. An outline without curves gives
/// `NoOutline` and leaves the backend alone.
pub fn build_mesh<B: MeshBackend>(backend: &mut B, outline: &Outline) -> (r: Result<
    GlyphMesh,
    MeshError,
>)
    ensures
        (outline.curves@.len() == 0) == (r == Err::<GlyphMesh, MeshError>(MeshError::NoOutline)),
        outline.curves@.len() == 0 ==> *final(backend) == *old(backend),
        r is Ok ==> {
            let m = r->Ok_0;
            &&& m.width == outline.bounds.width()
            &&& m.height == outline.bounds.height()
            &&& exists|t: Tessellation| is_assembly_of(m.mesh, t, outline.bounds)
        },
{
    let contours = build_contours(&outline.curves);
    proof {
        lemma_contour_count(outline.curves@, contour_seqs(contours@));
    }
    if contours.len() == 0 {
        return Err(MeshError::NoOutline);
    }
    match backend.tessellate(&contours) {
        None => Err(MeshError::TessellationFailed),
        Some(t) => {
            let ghost tg = t;
            let mesh = assemble_mesh(t, outline.bounds);
            let (width, height) = outline.bounds.size();
            let r = GlyphMesh { mesh, width, height };
            proof {
                assert(is_assembly_of(r.mesh, tg, outline.bounds));
                assert(r.width == outline.bounds.width());
                assert(r.height == outline.bounds.height());
            }
            Ok(r)
        },
    }
}

} // verus!
