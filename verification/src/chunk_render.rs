//! Meshing: which faces of which blocks are visible, and the vertex and
//! index buffers that draw them. All coordinates are integral: positions are
//! block corners, normals are unit vectors, texture coordinates are corners
//! of the unit square.
use vstd::prelude::*;

use crate::block::{Block, Oclusion};
use crate::chunk_blocks::{ChunkBlocks, CHUNK_VOLUME, key_local, lemma_key_local};
use crate::chunks::{
    Chunk, ChunksIndex, chunk_fits, deterministic, global_of, is_local, local_to_global, lookup,
    lemma_locate_then_global, side_at,
};
use crate::spacial::{
    side_position, IVec3, Side, Sides, Symetry2, quad_indices, quad_indices_spec, quad_uv,
    quad_uv_spec, triple,
};

verus! {

/// A visible face of a block.
#[derive(Clone, Copy, Debug, PartialEq, Eq, Structural)]
pub struct Face {
    /// The block's position inside its chunk.
    pub position: IVec3,
    pub side: Side,
    /// Whether the face belongs to the water mesh rather than the opaque one.
    pub water: bool,
    /// How the texture is turned on the face.
    pub symetry: Symetry2,
    /// The atlas index of the texture; 0 for water.
    pub texture_index: u32,
}

/// The vertices of one face, ready for a vertex buffer.
pub enum Quad {
    Regular {
        positions: [[i32; 3]; 4],
        normal: [i32; 3],
        texture_uv: [[i32; 2]; 4],
        texture_index: u32,
    },
    Water { positions: [[i32; 3]; 4], normal: [i32; 3], texture_uv: [[i32; 2]; 4] },
}

/// The position of corner `i` of a face.
pub open spec fn face_corner(f: Face, i: int) -> (i32, i32, i32) {
    let c = f.side.corner(i);
    ((f.position.x + c.0) as i32, (f.position.y + c.1) as i32, (f.position.z + c.2) as i32)
}

/// The texture coordinate of corner `i` of a face.
pub open spec fn face_uv(f: Face, i: int) -> (int, int) {
    f.symetry.image((quad_uv_spec(i).0 as int, quad_uv_spec(i).1 as int))
}

/// Whether a quad draws face `f`.
pub open spec fn quad_matches(q: Quad, f: Face) -> bool {
    match q {
        Quad::Regular { positions, normal, texture_uv, texture_index } => {
            &&& !f.water
            &&& forall|i: int| 0 <= i < 4 ==> triple(#[trigger] positions@[i]) == face_corner(f, i)
            &&& triple(normal) == f.side.unit().coords()
            &&& forall|i: int|
                0 <= i < 4 ==> (#[trigger] texture_uv@[i][0] as int, texture_uv@[i][1] as int)
                    == face_uv(f, i)
            &&& texture_index == f.texture_index
        },
        Quad::Water { positions, normal, texture_uv } => {
            &&& f.water
            &&& f.texture_index == 0
            &&& forall|i: int| 0 <= i < 4 ==> triple(#[trigger] positions@[i]) == face_corner(f, i)
            &&& triple(normal) == f.side.unit().coords()
            &&& forall|i: int|
                0 <= i < 4 ==> (#[trigger] texture_uv@[i][0] as int, texture_uv@[i][1] as int)
                    == face_uv(f, i)
        },
    }
}

/// The face that a block at `position` shows on `side`, given the block
/// across that side: water shows where neither an opaque block nor water
/// covers it; an opaque textured block shows where no opaque block covers it.
pub open spec fn side_faces(position: IVec3, block: Block, sides: Sides<Block>, side: Side) -> Seq<
    Face,
> {
    let next = sides.at(side);
    if block == Block::Water {
        if next.oclusion() == Oclusion::Full || next == Block::Water {
            seq![]
        } else {
            seq![
                Face {
                    position,
                    side,
                    water: true,
                    symetry: Symetry2::ppp(),
                    texture_index: 0,
                },
            ]
        }
    } else {
        match block.texture_of(side) {
            None => seq![],
            Some((symetry, texture_index)) => if next.oclusion() == Oclusion::Full {
                seq![]
            } else {
                seq![Face { position, side, water: false, symetry, texture_index }]
            },
        }
    }
}

/// The faces of the first `i` sides, in the order of `Side::all_sides`.
pub open spec fn cube_faces_upto(position: IVec3, block: Block, sides: Sides<Block>, i: int) -> Seq<
    Face,
>
    decreases i,
{
    if i <= 0 {
        seq![]
    } else {
        cube_faces_upto(position, block, sides, i - 1) + side_faces(
            position,
            block,
            sides,
            side_at(i - 1),
        )
    }
}

/// The visible faces of a block, in the order of `Side::all_sides`.
pub open spec fn cube_faces(position: IVec3, block: Block, sides: Sides<Block>) -> Seq<Face> {
    cube_faces_upto(position, block, sides, 6)
}

/// Whether the far corner of the unit cube at `position` has coordinates
/// that fit.
pub open spec fn cube_fits(position: IVec3) -> bool {
    &&& position.x < i32::MAX
    &&& position.y < i32::MAX
    &&& position.z < i32::MAX
}

/// The quads of the visible faces of `block` at `position`, given the
/// blocks across its sides.
pub fn make_cube_mesh2(position: IVec3, block: Block, sides: &Sides<Block>) -> (r: Vec<Quad>)
    requires
        cube_fits(position),
    ensures
        r@.len() == cube_faces(position, block, *sides).len(),
        forall|i: int|
            0 <= i < r@.len() ==> quad_matches(#[trigger] r@[i], cube_faces(position, block, *sides)[i]),
{
    let mut r: Vec<Quad> = Vec::new();
    let all = Side::all_sides();
    let textures = block.regular_textures();
    let mut i: usize = 0;
    while i < 6
        invariant
            0 <= i <= 6,
            cube_fits(position),
            all@ == seq![Side::XPos, Side::XNeg, Side::YPos, Side::YNeg, Side::ZPos, Side::ZNeg],
            textures is None <==> block.texture_of(Side::XPos) is None,
            textures matches Some(t) ==> forall|side: Side| Some(#[trigger] t.at(side)) == block.texture_of(side),
            r@.len() == cube_faces_upto(position, block, *sides, i as int).len(),
            forall|k: int|
                0 <= k < r@.len() ==> quad_matches(
                    #[trigger] r@[k],
                    cube_faces_upto(position, block, *sides, i as int)[k],
                ),
        decreases 6 - i,
    {
        let side = all[i];
        assert(side == side_at(i as int));
        let next = *sides.index(side);
        let ghost before = r@;
        let ghost expect = side_faces(position, block, *sides, side);
        if block == Block::Water {
            if !(next.oclusion() == Oclusion::Full || next == Block::Water) {
                let f = Ghost(
                    Face { position, side, water: true, symetry: Symetry2::ppp(), texture_index: 0 },
                );
                let positions = face_positions(position, side);
                let normal: [i32; 3] = side.normal();
                let uv = quad_uv();
                r.push(Quad::Water { positions, normal, texture_uv: uv });
                proof {
                    assert(expect == seq![f@]);
                    assert(quad_matches(r@[r@.len() - 1], f@));
                }
            }
        } else {
            match textures {
                None => {
                    proof {
                        lemma_texture_all_or_none(block, side);
                    }
                },
                Some(t) => {
                    if next.oclusion() != Oclusion::Full {
                        let (symetry, texture_index) = *t.index(side);
                        let f = Ghost(Face { position, side, water: false, symetry, texture_index });
                        let positions = face_positions(position, side);
                        let normal: [i32; 3] = side.normal();
                        let texture_uv = face_texture_uv(symetry);
                        r.push(Quad::Regular { positions, normal, texture_uv, texture_index });
                        proof {
                            assert(expect == seq![f@]);
                            assert(quad_matches(r@[r@.len() - 1], f@));
                        }
                    }
                },
            }
        }
        proof {
            let upto = cube_faces_upto(position, block, *sides, i as int);
            let next_upto = cube_faces_upto(position, block, *sides, i + 1);
            assert(next_upto == upto + expect);
            assert forall|k: int| 0 <= k < r@.len() implies quad_matches(#[trigger] r@[k], next_upto[k]) by {
                if k < before.len() {
                    assert(r@[k] == before[k]);
                    assert(next_upto[k] == upto[k]);
                }
            }
        }
        i = i + 1;
    }
    r
}

/// Whether some face of `faces` lies on `side`.
pub open spec fn has_face_on(faces: Seq<Face>, side: Side) -> bool {
    exists|i: int| 0 <= i < faces.len() && #[trigger] faces[i].side == side
}

proof fn lemma_faces_upto(position: IVec3, block: Block, sides: Sides<Block>, k: int)
    requires
        0 <= k <= 6,
    ensures
        ({
            let faces = cube_faces_upto(position, block, sides, k);
            &&& faces.len() <= k
            &&& forall|i: int|
                0 <= i < faces.len() ==> side_position(#[trigger] faces[i].side) < k && side_faces(
                    position,
                    block,
                    sides,
                    faces[i].side,
                ) == seq![faces[i]]
            &&& forall|i: int, j: int|
                0 <= i < j < faces.len() ==> side_position(#[trigger] faces[i].side) < side_position(
                    #[trigger] faces[j].side,
                )
            &&& forall|s: Side|
                side_position(s) < k && #[trigger] side_faces(position, block, sides, s).len() == 1
                    ==> has_face_on(faces, s)
        }),
    decreases k,
{
    if k > 0 {
        lemma_faces_upto(position, block, sides, k - 1);
        let prev = cube_faces_upto(position, block, sides, k - 1);
        let s = side_at(k - 1);
        let e = side_faces(position, block, sides, s);
        let faces = cube_faces_upto(position, block, sides, k);
        assert(faces == prev + e);
        assert(side_position(s) == k - 1);
        assert(e.len() == 0 || (e.len() == 1 && e[0].side == s));
        assert forall|i: int| 0 <= i < faces.len() implies side_position(#[trigger] faces[i].side) < k
            && side_faces(position, block, sides, faces[i].side) == seq![faces[i]] by {
            if i < prev.len() {
                assert(faces[i] == prev[i]);
            } else {
                assert(faces[i] == e[0]);
                assert(e =~= seq![e[0]]);
            }
        }
        assert forall|i: int, j: int| 0 <= i < j < faces.len() implies side_position(
            #[trigger] faces[i].side,
        ) < side_position(#[trigger] faces[j].side) by {
            if j < prev.len() {
                assert(faces[i] == prev[i] && faces[j] == prev[j]);
            } else {
                assert(faces[i] == prev[i]);
                assert(faces[j] == e[0]);
            }
        }
        assert forall|t: Side| side_position(t) < k && #[trigger] side_faces(position, block, sides, t).len()
            == 1 implies has_face_on(faces, t) by {
            if side_position(t) < k - 1 {
                let i = choose|i: int| 0 <= i < prev.len() && #[trigger] prev[i].side == t;
                assert(faces[i] == prev[i]);
            } else {
                assert(t == s);
                assert(faces[prev.len() as int] == e[0]);
            }
        }
    }
}

/// Which faces of a block are visible: an opaque textured block shows a face
/// on every side whose neighbour is not opaque (water and air never hide
/// it); water shows a face on every side whose neighbour is neither opaque
/// nor water; blocks without texture other than water show nothing. There
/// is at most one face per side, in the order of `Side::all_sides`; each
/// face lies at the block's position, belongs to the water mesh exactly for
/// water, and an opaque face carries the block's texture for its side.
pub proof fn lemma_visible_faces(position: IVec3, block: Block, sides: Sides<Block>, side: Side)
    ensures
        ({
            let faces = cube_faces(position, block, sides);
            &&& block != Block::Water ==> (has_face_on(faces, side) <==> (block.texture_of(side) is Some
                && sides.at(side).oclusion() != Oclusion::Full))
            &&& block == Block::Water ==> (has_face_on(faces, side) <==> (sides.at(side).oclusion()
                != Oclusion::Full && sides.at(side) != Block::Water))
            &&& faces.len() <= 6
            &&& forall|i: int, j: int|
                0 <= i < j < faces.len() ==> side_position(#[trigger] faces[i].side) < side_position(
                    #[trigger] faces[j].side,
                )
            &&& forall|i: int|
                0 <= i < faces.len() ==> {
                    &&& (#[trigger] faces[i]).position == position
                    &&& faces[i].water == (block == Block::Water)
                    &&& block != Block::Water ==> block.texture_of(faces[i].side) == Some(
                        (faces[i].symetry, faces[i].texture_index),
                    )
                }
        }),
{
    lemma_faces_upto(position, block, sides, 6);
    let faces = cube_faces(position, block, sides);
    assert(side_position(side) < 6);
    let e = side_faces(position, block, sides, side);
    if block == Block::Water {
        assert(e.len() == 1 <==> (sides.at(side).oclusion() != Oclusion::Full && sides.at(side)
            != Block::Water));
    } else {
        assert(e.len() == 1 <==> (block.texture_of(side) is Some && sides.at(side).oclusion()
            != Oclusion::Full));
    }
    if e.len() == 1 {
        assert(has_face_on(faces, side));
    }
    if has_face_on(faces, side) {
        let i = choose|i: int| 0 <= i < faces.len() && #[trigger] faces[i].side == side;
        assert(side_faces(position, block, sides, side) == seq![faces[i]]);
    }
    assert forall|i: int| 0 <= i < faces.len() implies {
        &&& (#[trigger] faces[i]).position == position
        &&& faces[i].water == (block == Block::Water)
        &&& block != Block::Water ==> block.texture_of(faces[i].side) == Some(
            (faces[i].symetry, faces[i].texture_index),
        )
    } by {
        let s = faces[i].side;
        assert(side_faces(position, block, sides, s) == seq![faces[i]]);
        assert(side_faces(position, block, sides, s)[0] == faces[i]);
    }
}

proof fn lemma_texture_all_or_none(block: Block, side: Side)
    ensures
        block.texture_of(side) is None <==> block.texture_of(Side::XPos) is None,
{
}

/// The corners of the face of the block at `position` on `side`.
fn face_positions(position: IVec3, side: Side) -> (r: [[i32; 3]; 4])
    requires
        cube_fits(position),
    ensures
        forall|i: int|
            0 <= i < 4 ==> triple(#[trigger] r@[i]) == face_corner(
                Face { position, side, water: false, symetry: Symetry2::ppp(), texture_index: 0 },
                i,
            ),
{
    let q: [[i32; 3]; 4] = side.quad();
    proof {
        assert forall|i: int| 0 <= i < 4 implies 0 <= (#[trigger] q@[i])[0] <= 1 && 0 <= q@[i][1] <= 1
            && 0 <= q@[i][2] <= 1 by {
            assert(triple(q@[i]) == side.corner(i));
        }
    }
    let p0 = [position.x + q[0][0], position.y + q[0][1], position.z + q[0][2]];
    let p1 = [position.x + q[1][0], position.y + q[1][1], position.z + q[1][2]];
    let p2 = [position.x + q[2][0], position.y + q[2][1], position.z + q[2][2]];
    let p3 = [position.x + q[3][0], position.y + q[3][1], position.z + q[3][2]];
    let r = [p0, p1, p2, p3];
    proof {
        assert forall|i: int| 0 <= i < 4 implies triple(#[trigger] r@[i]) == face_corner(
            Face { position, side, water: false, symetry: Symetry2::ppp(), texture_index: 0 },
            i,
        ) by {
            assert(triple(q@[i]) == side.corner(i));
        }
    }
    r
}

/// The texture coordinates of the four corners of a face turned by `symetry`.
fn face_texture_uv(symetry: Symetry2) -> (r: [[i32; 2]; 4])
    ensures
        forall|i: int|
            0 <= i < 4 ==> (#[trigger] r@[i][0] as int, r@[i][1] as int) == symetry.image(
                (quad_uv_spec(i).0 as int, quad_uv_spec(i).1 as int),
            ),
{
    let uv = quad_uv();
    let r = [symetry.apply(uv[0]), symetry.apply(uv[1]), symetry.apply(uv[2]), symetry.apply(uv[3])];
    r
}

/// The vertex and index buffers of a mesh.
pub struct MeshData {
    pub positions: Vec<[i32; 3]>,
    pub normals: Vec<[i32; 3]>,
    pub texture_uvs: Vec<[i32; 2]>,
    pub texture_indices: Vec<u32>,
    pub indices: Vec<u32>,
}

/// Whether the buffers draw `faces`: four vertices per face, in order, and
/// two triangles per face over its own four vertices.
pub open spec fn mesh_matches(m: MeshData, faces: Seq<Face>) -> bool {
    &&& m.positions@.len() == 4 * faces.len()
    &&& m.normals@.len() == 4 * faces.len()
    &&& m.texture_uvs@.len() == 4 * faces.len()
    &&& m.texture_indices@.len() == 4 * faces.len()
    &&& m.indices@.len() == 6 * faces.len()
    &&& forall|v: int|
        0 <= v < 4 * faces.len() ==> triple(#[trigger] m.positions@[v]) == face_corner(
            faces[v / 4],
            v % 4,
        )
    &&& forall|v: int|
        0 <= v < 4 * faces.len() ==> triple(#[trigger] m.normals@[v]) == faces[v
            / 4].side.unit().coords()
    &&& forall|v: int|
        0 <= v < 4 * faces.len() ==> (#[trigger] m.texture_uvs@[v][0] as int, m.texture_uvs@[v][1] as int)
            == face_uv(faces[v / 4], v % 4)
    &&& forall|v: int|
        0 <= v < 4 * faces.len() ==> #[trigger] m.texture_indices@[v] == faces[v / 4].texture_index
    &&& forall|t: int|
        0 <= t < 6 * faces.len() ==> #[trigger] m.indices@[t] == quad_indices_spec(t % 6) + 4 * (t / 6)
}

fn empty_mesh() -> (r: MeshData)
    ensures
        mesh_matches(r, seq![]),
{
    MeshData {
        positions: Vec::new(),
        normals: Vec::new(),
        texture_uvs: Vec::new(),
        texture_indices: Vec::new(),
        indices: Vec::new(),
    }
}

/// Appends the vertices and triangles of one face.
fn push_face(
    m: &mut MeshData,
    positions: &[[i32; 3]; 4],
    normal: &[i32; 3],
    texture_uv: &[[i32; 2]; 4],
    texture_index: u32,
    Ghost(faces): Ghost<Seq<Face>>,
    Ghost(f): Ghost<Face>,
)
    requires
        mesh_matches(*old(m), faces),
        faces.len() < 200000,
        forall|i: int| 0 <= i < 4 ==> triple(#[trigger] positions@[i]) == face_corner(f, i),
        triple(*normal) == f.side.unit().coords(),
        forall|i: int|
            0 <= i < 4 ==> (#[trigger] texture_uv@[i][0] as int, texture_uv@[i][1] as int) == face_uv(f, i),
        texture_index == f.texture_index,
    ensures
        mesh_matches(*final(m), faces.push(f)),
{
    let shift = m.positions.len() as u32;
    let ghost n = faces.len();
    let ghost old_m = *m;
    let mut i: usize = 0;
    while i < 4
        invariant
            0 <= i <= 4,
            n == faces.len(),
            n < 200000,
            shift == 4 * n,
            mesh_matches(old_m, faces),
            forall|k: int| 0 <= k < 4 ==> triple(#[trigger] positions@[k]) == face_corner(f, k),
            triple(*normal) == f.side.unit().coords(),
            forall|k: int|
                0 <= k < 4 ==> (#[trigger] texture_uv@[k][0] as int, texture_uv@[k][1] as int) == face_uv(f, k),
            texture_index == f.texture_index,
            m.positions@ == old_m.positions@ + positions@.take(i as int),
            m.normals@ == old_m.normals@ + Seq::new(i as nat, |k: int| *normal),
            m.texture_uvs@ == old_m.texture_uvs@ + texture_uv@.take(i as int),
            m.texture_indices@ == old_m.texture_indices@ + Seq::new(i as nat, |k: int| texture_index),
            m.indices@ == old_m.indices@,
        decreases 4 - i,
    {
        m.positions.push(positions[i]);
        m.normals.push(*normal);
        m.texture_uvs.push(texture_uv[i]);
        m.texture_indices.push(texture_index);
        proof {
            assert(positions@.take(i + 1) == positions@.take(i as int).push(positions@[i as int]));
            assert(texture_uv@.take(i + 1) == texture_uv@.take(i as int).push(texture_uv@[i as int]));
            assert(Seq::new((i + 1) as nat, |k: int| *normal) =~= Seq::new(i as nat, |k: int| *normal).push(*normal));
            assert(Seq::new((i + 1) as nat, |k: int| texture_index) =~= Seq::new(i as nat, |k: int| texture_index).push(texture_index));
        }
        i = i + 1;
    }
    let tri = quad_indices();
    let mut j: usize = 0;
    while j < 6
        invariant
            0 <= j <= 6,
            n == faces.len(),
            n < 200000,
            shift == 4 * n,
            forall|k: int| 0 <= k < 6 ==> #[trigger] tri@[k] == quad_indices_spec(k),
            m.indices@ == old_m.indices@ + Seq::new(j as nat, |k: int| (quad_indices_spec(k) + shift) as u32),
            m.positions@ == old_m.positions@ + positions@.take(4),
            m.normals@ == old_m.normals@ + Seq::new(4, |k: int| *normal),
            m.texture_uvs@ == old_m.texture_uvs@ + texture_uv@.take(4),
            m.texture_indices@ == old_m.texture_indices@ + Seq::new(4, |k: int| texture_index),
        decreases 6 - j,
    {
        m.indices.push(tri[j] + shift);
        proof {
            assert(Seq::new((j + 1) as nat, |k: int| (quad_indices_spec(k) + shift) as u32) =~= Seq::new(
                j as nat,
                |k: int| (quad_indices_spec(k) + shift) as u32,
            ).push((quad_indices_spec(j as int) + shift) as u32));
        }
        j = j + 1;
    }
    proof {
        let nf = faces.push(f);
        assert forall|v: int| 0 <= v < 4 * nf.len() implies triple(#[trigger] m.positions@[v]) == face_corner(nf[v / 4], v % 4) by {
            if v < 4 * n {
                assert(m.positions@[v] == old_m.positions@[v]);
                assert(nf[v / 4] == faces[v / 4]);
            } else {
                assert(m.positions@[v] == positions@[v - 4 * n]);
                assert(v / 4 == n);
            }
        }
        assert forall|v: int| 0 <= v < 4 * nf.len() implies triple(#[trigger] m.normals@[v]) == nf[v / 4].side.unit().coords() by {
            if v < 4 * n {
                assert(m.normals@[v] == old_m.normals@[v]);
                assert(nf[v / 4] == faces[v / 4]);
            } else {
                assert(v / 4 == n);
            }
        }
        assert forall|v: int| 0 <= v < 4 * nf.len() implies (#[trigger] m.texture_uvs@[v][0] as int, m.texture_uvs@[v][1] as int) == face_uv(nf[v / 4], v % 4) by {
            if v < 4 * n {
                assert(m.texture_uvs@[v] == old_m.texture_uvs@[v]);
                assert(nf[v / 4] == faces[v / 4]);
            } else {
                assert(m.texture_uvs@[v] == texture_uv@[v - 4 * n]);
                assert(v / 4 == n);
            }
        }
        assert forall|v: int| 0 <= v < 4 * nf.len() implies #[trigger] m.texture_indices@[v] == nf[v / 4].texture_index by {
            if v < 4 * n {
                assert(m.texture_indices@[v] == old_m.texture_indices@[v]);
                assert(nf[v / 4] == faces[v / 4]);
            } else {
                assert(v / 4 == n);
            }
        }
        assert forall|t: int| 0 <= t < 6 * nf.len() implies #[trigger] m.indices@[t] == quad_indices_spec(t % 6) + 4 * (t / 6) by {
            if t < 6 * n {
                assert(m.indices@[t] == old_m.indices@[t]);
            } else {
                assert(t / 6 == n);
                assert(m.indices@[t] == (quad_indices_spec(t - 6 * n) + shift) as u32);
            }
        }
    }
}

/// The block at `global`, or air where `blocks` has none.
pub open spec fn block_or_air<'a, F: Fn(u64) -> Option<&'a ChunkBlocks>>(
    index: ChunksIndex,
    blocks: F,
    global: IVec3,
) -> Block {
    match index.block_at(blocks, global) {
        Some(b) => b,
        None => Block::Air,
    }
}

/// The blocks across the six sides of position `l` of `chunk`.
pub open spec fn mesh_neighbours<'a, F: Fn(u64) -> Option<&'a ChunkBlocks>>(
    index: ChunksIndex,
    blocks: F,
    chunk: Chunk,
    l: IVec3,
) -> Sides<Block> {
    let g = global_of(chunk, l);
    Sides {
        x_pos: block_or_air(index, blocks, Side::XPos.unit().sum(g)),
        x_neg: block_or_air(index, blocks, Side::XNeg.unit().sum(g)),
        y_pos: block_or_air(index, blocks, Side::YPos.unit().sum(g)),
        y_neg: block_or_air(index, blocks, Side::YNeg.unit().sum(g)),
        z_pos: block_or_air(index, blocks, Side::ZPos.unit().sum(g)),
        z_neg: block_or_air(index, blocks, Side::ZNeg.unit().sum(g)),
    }
}

/// The visible faces of the block under key `k` of `chunk`.
pub open spec fn faces_at<'a, F: Fn(u64) -> Option<&'a ChunkBlocks>>(
    index: ChunksIndex,
    blocks: F,
    chunk: Chunk,
    k: int,
) -> Seq<Face> {
    let l = key_local(k);
    cube_faces(l, block_or_air(index, blocks, global_of(chunk, l)), mesh_neighbours(index, blocks, chunk, l))
}

/// The visible faces under keys below `k` that belong to the mesh chosen by
/// `water`, in key order.
pub open spec fn mesh_faces_upto<'a, F: Fn(u64) -> Option<&'a ChunkBlocks>>(
    index: ChunksIndex,
    blocks: F,
    chunk: Chunk,
    water: bool,
    k: int,
) -> Seq<Face>
    decreases k,
{
    if k <= 0 {
        seq![]
    } else {
        mesh_faces_upto(index, blocks, chunk, water, k - 1) + faces_at(index, blocks, chunk, k - 1).filter(
            |f: Face| f.water == water,
        )
    }
}

/// The visible faces of a chunk that belong to the mesh chosen by `water`.
pub open spec fn mesh_faces<'a, F: Fn(u64) -> Option<&'a ChunkBlocks>>(
    index: ChunksIndex,
    blocks: F,
    chunk: Chunk,
    water: bool,
) -> Seq<Face> {
    mesh_faces_upto(index, blocks, chunk, water, CHUNK_VOLUME as int)
}

/// Whether the global positions of `chunk` and of the blocks next to them
/// fit in an `i32`.
pub open spec fn chunk_inner(chunk: Chunk) -> bool {
    &&& chunk_fits(chunk)
    &&& i32::MIN < 32 * chunk.chunk.x
    &&& 32 * chunk.chunk.x + 32 <= i32::MAX
    &&& i32::MIN < 32 * chunk.chunk.y
    &&& 32 * chunk.chunk.y + 32 <= i32::MAX
    &&& i32::MIN < 32 * chunk.chunk.z
    &&& 32 * chunk.chunk.z + 32 <= i32::MAX
}

/// The block at `global`, or air where `blocks` has none.
fn get_block_or_air<'a, F: Fn(u64) -> Option<&'a ChunkBlocks>>(
    index: &ChunksIndex,
    blocks: &F,
    global: IVec3,
) -> (r: Block)
    requires
        forall|e: u64| blocks.requires((e,)),
        deterministic(*blocks),
    ensures
        r == block_or_air(*index, *blocks, global),
{
    match index.global_to_local(global) {
        None => Block::Air,
        Some((e, local)) => {
            proof {
                lemma_locate_then_global(global);
            }
            let res = blocks(e);
            proof {
                assert(res == lookup(*blocks, e));
            }
            match res {
                Some(cb) => cb.get(local),
                None => Block::Air,
            }
        },
    }
}

/// The faces of a filtered sequence with one more element.
proof fn lemma_filter_take_push(s: Seq<Face>, j: int, water: bool)
    requires
        0 <= j < s.len(),
    ensures
        s.take(j + 1).filter(|f: Face| f.water == water) == s.take(j).filter(|f: Face| f.water == water)
            + if s[j].water == water {
            seq![s[j]]
        } else {
            seq![]
        },
{
    let pred = |f: Face| f.water == water;
    assert(s.take(j + 1) =~= s.take(j).push(s[j]));
    s.take(j).lemma_filter_push(s[j], pred);
    if pred(s[j]) {
        assert(s.take(j).filter(pred).push(s[j]) =~= s.take(j).filter(pred) + seq![s[j]]);
    } else {
        assert(s.take(j).filter(pred) =~= s.take(j).filter(pred) + Seq::<Face>::empty());
    }
}

proof fn lemma_cube_faces_len(position: IVec3, block: Block, sides: Sides<Block>, i: int)
    requires
        0 <= i,
    ensures
        cube_faces_upto(position, block, sides, i).len() <= i,
    decreases i,
{
    if i > 0 {
        lemma_cube_faces_len(position, block, sides, i - 1);
    }
}

/// The opaque mesh and the water mesh of `chunk`, each `None` when it has no
/// face. The blocks of `chunk` itself must be available; missing neighbours
/// count as air.
#[verifier::rlimit(40)]
pub fn chunk_build_mesh<'a, F: Fn(u64) -> Option<&'a ChunkBlocks>>(
    index: &ChunksIndex,
    blocks: F,
    chunk: Chunk,
) -> (r: (Option<MeshData>, Option<MeshData>))
    requires
        forall|e: u64| blocks.requires((e,)),
        deterministic(blocks),
        chunk_inner(chunk),
        index@.contains_key(chunk.chunk),
        lookup(blocks, index@[chunk.chunk]) is Some,
    ensures
        r.0 is None <==> mesh_faces(*index, blocks, chunk, false).len() == 0,
        r.0 matches Some(m) ==> mesh_matches(m, mesh_faces(*index, blocks, chunk, false)),
        r.1 is None <==> mesh_faces(*index, blocks, chunk, true).len() == 0,
        r.1 matches Some(m) ==> mesh_matches(m, mesh_faces(*index, blocks, chunk, true)),
{
    let mut regular = empty_mesh();
    let mut water = empty_mesh();
    let all = Side::all_sides();
    let mut k: u32 = 0;
    while k < CHUNK_VOLUME
        invariant
            0 <= k <= CHUNK_VOLUME,
            forall|e: u64| blocks.requires((e,)),
            deterministic(blocks),
            chunk_inner(chunk),
            all@ == seq![Side::XPos, Side::XNeg, Side::YPos, Side::YNeg, Side::ZPos, Side::ZNeg],
            mesh_matches(regular, mesh_faces_upto(*index, blocks, chunk, false, k as int)),
            mesh_matches(water, mesh_faces_upto(*index, blocks, chunk, true, k as int)),
            mesh_faces_upto(*index, blocks, chunk, false, k as int).len() <= 6 * k,
            mesh_faces_upto(*index, blocks, chunk, true, k as int).len() <= 6 * k,
        decreases CHUNK_VOLUME - k,
    {
        proof {
            lemma_key_local(k as int);
        }
        let local = IVec3 { x: (k / 1024) as i32, y: ((k / 32) % 32) as i32, z: (k % 32) as i32 };
        assert(local == key_local(k as int));
        let global = local_to_global(chunk, local);
        let block = get_block_or_air(index, &blocks, global);
        let mut neighbours = Sides::all(Block::Air);
        neighbours.x_pos = get_block_or_air(index, &blocks, Side::XPos.neighbour(global));
        neighbours.x_neg = get_block_or_air(index, &blocks, Side::XNeg.neighbour(global));
        neighbours.y_pos = get_block_or_air(index, &blocks, Side::YPos.neighbour(global));
        neighbours.y_neg = get_block_or_air(index, &blocks, Side::YNeg.neighbour(global));
        neighbours.z_pos = get_block_or_air(index, &blocks, Side::ZPos.neighbour(global));
        neighbours.z_neg = get_block_or_air(index, &blocks, Side::ZNeg.neighbour(global));
        assert(neighbours == mesh_neighbours(*index, blocks, chunk, local));
        let quads = make_cube_mesh2(local, block, &neighbours);
        let ghost faces = faces_at(*index, blocks, chunk, k as int);
        let ghost reg0 = mesh_faces_upto(*index, blocks, chunk, false, k as int);
        let ghost wat0 = mesh_faces_upto(*index, blocks, chunk, true, k as int);
        proof {
            lemma_cube_faces_len(local, block, neighbours, 6);
        }
        let mut j: usize = 0;
        while j < quads.len()
            invariant
                0 <= j <= quads@.len(),
                quads@.len() == faces.len(),
                faces.len() <= 6,
                reg0.len() <= 6 * k,
                wat0.len() <= 6 * k,
                k < CHUNK_VOLUME,
                forall|i: int| 0 <= i < quads@.len() ==> quad_matches(#[trigger] quads@[i], faces[i]),
                mesh_matches(regular, reg0 + faces.take(j as int).filter(|f: Face| f.water == false)),
                mesh_matches(water, wat0 + faces.take(j as int).filter(|f: Face| f.water == true)),
            decreases quads@.len() - j,
        {
            let ghost f = faces[j as int];
            proof {
                lemma_filter_take_push(faces, j as int, false);
                lemma_filter_take_push(faces, j as int, true);
                faces.take(j as int).lemma_filter_len(|f: Face| f.water == false);
                faces.take(j as int).lemma_filter_len(|f: Face| f.water == true);
            }
            match &quads[j] {
                Quad::Regular { positions, normal, texture_uv, texture_index } => {
                    assert(quad_matches(quads@[j as int], f));
                    push_face(
                        &mut regular,
                        positions,
                        normal,
                        texture_uv,
                        *texture_index,
                        Ghost(reg0 + faces.take(j as int).filter(|f: Face| f.water == false)),
                        Ghost(f),
                    );
                    proof {
                        assert(reg0 + faces.take(j + 1).filter(|f: Face| f.water == false) =~= (reg0
                            + faces.take(j as int).filter(|f: Face| f.water == false)).push(f));
                        assert(faces.take(j + 1).filter(|f: Face| f.water == true) =~= faces.take(j as int).filter(|f: Face| f.water == true));
                    }
                },
                Quad::Water { positions, normal, texture_uv } => {
                    assert(quad_matches(quads@[j as int], f));
                    push_face(
                        &mut water,
                        positions,
                        normal,
                        texture_uv,
                        0,
                        Ghost(wat0 + faces.take(j as int).filter(|f: Face| f.water == true)),
                        Ghost(f),
                    );
                    proof {
                        assert(wat0 + faces.take(j + 1).filter(|f: Face| f.water == true) =~= (wat0
                            + faces.take(j as int).filter(|f: Face| f.water == true)).push(f));
                        assert(faces.take(j + 1).filter(|f: Face| f.water == false) =~= faces.take(j as int).filter(|f: Face| f.water == false));
                    }
                },
            }
            j = j + 1;
        }
        proof {
            assert(faces.take(faces.len() as int) =~= faces);
            faces.lemma_filter_len(|f: Face| f.water == false);
            faces.lemma_filter_len(|f: Face| f.water == true);
        }
        k = k + 1;
    }
    let r0 = if regular.indices.len() == 0 {
        None
    } else {
        Some(regular)
    };
    let r1 = if water.indices.len() == 0 {
        None
    } else {
        Some(water)
    };
    (r0, r1)
}

} // verus!
