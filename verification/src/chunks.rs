//! The chunk grid: chunk coordinates, the conversion between global voxel
//! positions and (chunk, local) pairs, and the index from chunk coordinates to
//! the entity that holds the chunk.
use vstd::prelude::*;

use bevy::platform::collections::HashMap;
use bevy::platform::hash::FixedHasher;

use crate::block::{Block, Oclusion};
use crate::chunk_blocks::ChunkBlocks;
use crate::maps::{index_entries, index_get, index_insert, index_new};
use crate::spacial::{side_position, IVec3, Side, Sides};
use crate::CHUNK_WIDTH;

verus! {

/// Chunk position on the chunk grid. The unit is the chunk width, not a block.
#[derive(Clone, Copy, Debug, PartialEq, Eq, Structural, Hash)]
pub struct Chunk {
    pub chunk: IVec3,
}

/// Whether a position lies inside a chunk, relative to the chunk's origin.
pub open spec fn is_local(local: IVec3) -> bool {
    &&& 0 <= local.x < CHUNK_WIDTH
    &&& 0 <= local.y < CHUNK_WIDTH
    &&& 0 <= local.z < CHUNK_WIDTH
}

/// The global coordinate of component `local` of chunk component `chunk`.
pub open spec fn global_coord(chunk: i32, local: i32) -> int {
    CHUNK_WIDTH * chunk + local
}

/// Whether every global coordinate of `chunk` fits in an `i32`.
pub open spec fn chunk_fits(chunk: Chunk) -> bool {
    &&& i32::MIN <= CHUNK_WIDTH * chunk.chunk.x
    &&& CHUNK_WIDTH * chunk.chunk.x + CHUNK_WIDTH - 1 <= i32::MAX
    &&& i32::MIN <= CHUNK_WIDTH * chunk.chunk.y
    &&& CHUNK_WIDTH * chunk.chunk.y + CHUNK_WIDTH - 1 <= i32::MAX
    &&& i32::MIN <= CHUNK_WIDTH * chunk.chunk.z
    &&& CHUNK_WIDTH * chunk.chunk.z + CHUNK_WIDTH - 1 <= i32::MAX
}

/// The global position of `local` inside `chunk`.
pub open spec fn global_of(chunk: Chunk, local: IVec3) -> IVec3 {
    IVec3 {
        x: global_coord(chunk.chunk.x, local.x) as i32,
        y: global_coord(chunk.chunk.y, local.y) as i32,
        z: global_coord(chunk.chunk.z, local.z) as i32,
    }
}

/// The chunk that holds `global`, and the position of `global` inside it.
pub open spec fn locate(global: IVec3) -> (Chunk, IVec3) {
    (
        Chunk {
            chunk: IVec3 {
                x: (global.x as int / CHUNK_WIDTH as int) as i32,
                y: (global.y as int / CHUNK_WIDTH as int) as i32,
                z: (global.z as int / CHUNK_WIDTH as int) as i32,
            },
        },
        IVec3 {
            x: (global.x as int % CHUNK_WIDTH as int) as i32,
            y: (global.y as int % CHUNK_WIDTH as int) as i32,
            z: (global.z as int % CHUNK_WIDTH as int) as i32,
        },
    )
}

/// Has no effect on the inputs it accepts: it states that `local` lies
/// inside a chunk.
pub fn assert_is_local(local: IVec3)
    requires
        is_local(local),
{
}

/// The global position of `local` inside `chunk`.
pub fn local_to_global(chunk: Chunk, local: IVec3) -> (r: IVec3)
    requires
        is_local(local),
        chunk_fits(chunk),
    ensures
        r == global_of(chunk, local),
        r.x == CHUNK_WIDTH * chunk.chunk.x + local.x,
        r.y == CHUNK_WIDTH * chunk.chunk.y + local.y,
        r.z == CHUNK_WIDTH * chunk.chunk.z + local.z,
{
    assert_is_local(local);
    IVec3 {
        x: CHUNK_WIDTH * chunk.chunk.x + local.x,
        y: CHUNK_WIDTH * chunk.chunk.y + local.y,
        z: CHUNK_WIDTH * chunk.chunk.z + local.z,
    }
}

/// Euclidean division and remainder of one coordinate by the chunk width.
fn split_coord(v: i32) -> (r: (i32, i32))
    ensures
        r.0 == v as int / CHUNK_WIDTH as int,
        r.1 == v as int % CHUNK_WIDTH as int,
{
    let q = match v.checked_div_euclid(CHUNK_WIDTH) {
        Some(q) => q,
        None => 0,
    };
    let m = match v.checked_rem_euclid(CHUNK_WIDTH) {
        Some(m) => m,
        None => 0,
    };
    (q, m)
}

/// The chunk that holds `global`, and the position of `global` inside it.
pub fn global_to_local(global: IVec3) -> (r: (Chunk, IVec3))
    ensures
        r == locate(global),
{
    let (cx, lx) = split_coord(global.x);
    let (cy, ly) = split_coord(global.y);
    let (cz, lz) = split_coord(global.z);
    (Chunk { chunk: IVec3 { x: cx, y: cy, z: cz } }, IVec3 { x: lx, y: ly, z: lz })
}

/// Splitting a global position gives a local position inside a chunk whose
/// coordinates fit, and recombining them gives the global position back.
pub proof fn lemma_locate_then_global(global: IVec3)
    ensures
        is_local(locate(global).1),
        chunk_fits(locate(global).0),
        global_of(locate(global).0, locate(global).1) == global,
{
    let (c, l) = locate(global);
    assert(global.x as int == CHUNK_WIDTH * (global.x as int / CHUNK_WIDTH as int) + global.x as int % CHUNK_WIDTH as int);
    assert(global.y as int == CHUNK_WIDTH * (global.y as int / CHUNK_WIDTH as int) + global.y as int % CHUNK_WIDTH as int);
    assert(global.z as int == CHUNK_WIDTH * (global.z as int / CHUNK_WIDTH as int) + global.z as int % CHUNK_WIDTH as int);
}

/// Joining a chunk and a local position, then splitting the result, gives
/// back the chunk and the local position.
pub proof fn lemma_global_then_locate(chunk: Chunk, local: IVec3)
    requires
        is_local(local),
        chunk_fits(chunk),
    ensures
        locate(global_of(chunk, local)) == (chunk, local),
{
    lemma_div_mod_unique(chunk.chunk.x as int, local.x as int);
    lemma_div_mod_unique(chunk.chunk.y as int, local.y as int);
    lemma_div_mod_unique(chunk.chunk.z as int, local.z as int);
}

proof fn lemma_div_mod_unique(q: int, r: int)
    requires
        0 <= r < CHUNK_WIDTH,
    ensures
        (CHUNK_WIDTH * q + r) / CHUNK_WIDTH as int == q,
        (CHUNK_WIDTH * q + r) % CHUNK_WIDTH as int == r,
{
    vstd::arithmetic::div_mod::lemma_fundamental_div_mod_converse(
        CHUNK_WIDTH * q + r,
        CHUNK_WIDTH as int,
        q,
        r,
    );
}

impl Chunk {
    pub fn from(chunk: IVec3) -> (r: Chunk)
        ensures
            r.chunk == chunk,
    {
        Chunk { chunk }
    }

    /// The chunk shifted by `rhs`.
    pub fn add(self, rhs: IVec3) -> (r: Chunk)
        requires
            self.chunk.no_overflow_add(rhs),
        ensures
            r.chunk == self.chunk.sum(rhs),
    {
        Chunk { chunk: self.chunk.add(rhs) }
    }

    /// Whether every neighbour across a side has coordinates that fit.
    pub open spec fn neighbours_fit(self) -> bool {
        &&& i32::MIN < self.chunk.x < i32::MAX
        &&& i32::MIN < self.chunk.y < i32::MAX
        &&& i32::MIN < self.chunk.z < i32::MAX
    }

    /// The six chunks that share a face with this one.
    pub fn neighbours(self) -> (r: Sides<Chunk>)
        requires
            self.neighbours_fit(),
        ensures
            forall|side: Side| (#[trigger] r.at(side)).chunk == self.chunk.sum(side.unit()),
    {
        let r = Sides {
            x_pos: self.add(IVec3 { x: 1, y: 0, z: 0 }),
            x_neg: self.add(IVec3 { x: -1, y: 0, z: 0 }),
            y_pos: self.add(IVec3 { x: 0, y: 1, z: 0 }),
            y_neg: self.add(IVec3 { x: 0, y: -1, z: 0 }),
            z_pos: self.add(IVec3 { x: 0, y: 0, z: 1 }),
            z_neg: self.add(IVec3 { x: 0, y: 0, z: -1 }),
        };
        assert forall|side: Side| (#[trigger] r.at(side)).chunk == self.chunk.sum(side.unit()) by {
            match side {
                Side::XPos => {},
                Side::XNeg => {},
                Side::YPos => {},
                Side::YNeg => {},
                Side::ZPos => {},
                Side::ZNeg => {},
            }
        }
        r
    }
}

/// The offset of the `i`-th neighbour in the 3x3x3 block of chunks around a
/// chunk, in x-major order, skipping the centre.
pub open spec fn hexahedron_offset(i: int) -> IVec3 {
    let j = if i < 13 { i } else { i + 1 };
    IVec3 { x: (j / 9 - 1) as i32, y: ((j / 3) % 3 - 1) as i32, z: (j % 3 - 1) as i32 }
}

fn hexahedron_offset_exec(i: usize) -> (r: IVec3)
    requires
        i < 26,
    ensures
        r == hexahedron_offset(i as int),
{
    let j: i32 = if i < 13 { i as i32 } else { i as i32 + 1 };
    IVec3 { x: j / 9 - 1, y: (j / 3) % 3 - 1, z: j % 3 - 1 }
}

/// The 26 chunks around `chunk`: every chunk whose coordinates differ from
/// it by at most one on each axis, except `chunk` itself.
pub fn chunk_neighbours_hexahedron(chunk: Chunk) -> (r: [Chunk; 26])
    requires
        chunk.neighbours_fit(),
    ensures
        forall|i: int| 0 <= i < 26 ==> (#[trigger] r@[i]).chunk == chunk.chunk.sum(hexahedron_offset(i)),
{
    let mut r = [chunk; 26];
    for i in 0..26
        invariant
            forall|k: int| 0 <= k < i ==> (#[trigger] r@[k]).chunk == chunk.chunk.sum(hexahedron_offset(k)),
            chunk.neighbours_fit(),
    {
        let shift = hexahedron_offset_exec(i);
        r[i] = Chunk::from(chunk.chunk.add(shift));
    }
    r
}

/// The 26 offsets are the distinct non-zero vectors with components in
/// {-1, 0, 1}.
pub proof fn lemma_hexahedron_offsets(i: int, k: int)
    requires
        0 <= i < 26,
        0 <= k < 26,
    ensures
        -1 <= hexahedron_offset(i).x <= 1,
        -1 <= hexahedron_offset(i).y <= 1,
        -1 <= hexahedron_offset(i).z <= 1,
        hexahedron_offset(i) != (IVec3 { x: 0, y: 0, z: 0 }),
        i != k ==> hexahedron_offset(i) != hexahedron_offset(k),
{
}

/// The storage key of a chunk coordinate: the three coordinates, each offset
/// to be non-negative, as the digits of a number in base 2^32.
pub open spec fn chunk_key(c: IVec3) -> int {
    (c.x + 0x8000_0000) * 0x1_0000_0000_0000_0000 + (c.y + 0x8000_0000) * 0x1_0000_0000 + (c.z
        + 0x8000_0000)
}

/// Distinct chunk coordinates have distinct keys, and keys fit in a `u128`.
pub proof fn lemma_chunk_key(a: IVec3, b: IVec3)
    ensures
        0 <= chunk_key(a) < 0x1_0000_0000_0000_0000_0000_0000,
        chunk_key(a) == chunk_key(b) ==> a == b,
{
}

fn chunk_key_exec(c: IVec3) -> (r: u128)
    ensures
        r == chunk_key(c),
{
    let x = (c.x as i64 + 0x8000_0000) as u128;
    let y = (c.y as i64 + 0x8000_0000) as u128;
    let z = (c.z as i64 + 0x8000_0000) as u128;
    x * 0x1_0000_0000_0000_0000 + y * 0x1_0000_0000 + z
}

/// The entity that holds each chunk, by chunk coordinate. Entities are
/// identified by their bits.
pub struct ChunksIndex {
    index: HashMap<u128, u64, FixedHasher>,
}

/// Whether `blocks` gives the same answer every time it is asked about the
/// same entity.
pub open spec fn deterministic<'a, F: Fn(u64) -> Option<&'a ChunkBlocks>>(blocks: F) -> bool {
    forall|e: u64, r1: Option<&'a ChunkBlocks>, r2: Option<&'a ChunkBlocks>|
        #![trigger blocks.ensures((e,), r1), blocks.ensures((e,), r2)]
        blocks.ensures((e,), r1) && blocks.ensures((e,), r2) ==> r1 == r2
}

/// The answer of a deterministic `blocks` about entity `e`.
pub open spec fn lookup<'a, F: Fn(u64) -> Option<&'a ChunkBlocks>>(blocks: F, e: u64) -> Option<
    &'a ChunkBlocks,
> {
    choose|r: Option<&'a ChunkBlocks>| blocks.ensures((e,), r)
}

/// Whether `c` lies in the box whose coordinates range over `x`, `y` and `z`,
/// bounds included.
pub open spec fn in_box(c: IVec3, x: (i32, i32), y: (i32, i32), z: (i32, i32)) -> bool {
    &&& x.0 <= c.x <= x.1
    &&& y.0 <= c.y <= y.1
    &&& z.0 <= c.z <= z.1
}

/// Lexicographic order on coordinates, x first.
pub open spec fn lex_lt(a: IVec3, b: IVec3) -> bool {
    ||| a.x < b.x
    ||| (a.x == b.x && a.y < b.y)
    ||| (a.x == b.x && a.y == b.y && a.z < b.z)
}

/// Lexicographic order between a coordinate and a position with wider
/// components, x first.
pub open spec fn pos_lt(a: IVec3, p: (int, int, int)) -> bool {
    ||| a.x < p.0
    ||| (a.x == p.0 && a.y < p.1)
    ||| (a.x == p.0 && a.y == p.1 && a.z < p.2)
}

/// The side at a position of `Side::all_sides`.
pub open spec fn side_at(i: int) -> Side {
    if i == 0 {
        Side::XPos
    } else if i == 1 {
        Side::XNeg
    } else if i == 2 {
        Side::YPos
    } else if i == 3 {
        Side::YNeg
    } else if i == 4 {
        Side::ZPos
    } else {
        Side::ZNeg
    }
}

/// Whether every position next to `global` has coordinates that fit.
pub open spec fn neighbours_fit(global: IVec3) -> bool {
    &&& i32::MIN < global.x < i32::MAX
    &&& i32::MIN < global.y < i32::MAX
    &&& i32::MIN < global.z < i32::MAX
}

impl ChunksIndex {
    /// The entity of each indexed chunk coordinate.
    pub closed spec fn view(self) -> Map<IVec3, u64> {
        Map::new(
            |c: IVec3| index_entries(self.index).contains_key(chunk_key(c) as u128),
            |c: IVec3| index_entries(self.index)[chunk_key(c) as u128],
        )
    }

    /// The entity of the chunk that holds `global`, with the position of
    /// `global` inside that chunk.
    pub open spec fn locate_entity(self, global: IVec3) -> Option<(u64, IVec3)> {
        let (chunk, local) = locate(global);
        if self@.contains_key(chunk.chunk) {
            Some((self@[chunk.chunk], local))
        } else {
            None
        }
    }

    /// The block at `global` as a deterministic `blocks` reports it.
    pub open spec fn block_at<'a, F: Fn(u64) -> Option<&'a ChunkBlocks>>(
        self,
        blocks: F,
        global: IVec3,
    ) -> Option<Block> {
        match self.locate_entity(global) {
            None => None,
            Some((e, local)) => match lookup(blocks, e) {
                Some(cb) => Some(cb.at(local)),
                None => None,
            },
        }
    }

    pub fn new() -> (r: ChunksIndex)
        ensures
            r@ == Map::<IVec3, u64>::empty(),
    {
        let r = ChunksIndex { index: index_new() };
        assert(r@ =~= Map::<IVec3, u64>::empty());
        r
    }

    /// The entity of `chunk`, if it is indexed.
    pub fn get(&self, chunk: Chunk) -> (r: Option<u64>)
        ensures
            r == (if self@.contains_key(chunk.chunk) {
                Some(self@[chunk.chunk])
            } else {
                None
            }),
    {
        let key = chunk_key_exec(chunk.chunk);
        match index_get(&self.index, key) {
            Some(e) => Some(e),
            None => None,
        }
    }

    /// Records `entity` as the holder of `chunk`.
    pub fn insert(&mut self, chunk: Chunk, entity: u64)
        ensures
            final(self)@ == old(self)@.insert(chunk.chunk, entity),
    {
        let key = chunk_key_exec(chunk.chunk);
        index_insert(&mut self.index, key, entity);
        proof {
            assert forall|c: IVec3| #[trigger] final(self)@.contains_key(c) == old(self)@.insert(
                chunk.chunk,
                entity,
            ).contains_key(c) by {
                lemma_chunk_key(c, chunk.chunk);
            }
            assert forall|c: IVec3| #[trigger] final(self)@.contains_key(c) implies final(self)@[c]
                == old(self)@.insert(chunk.chunk, entity)[c] by {
                lemma_chunk_key(c, chunk.chunk);
            }
            assert(final(self)@ =~= old(self)@.insert(chunk.chunk, entity));
        }
    }

    /// The entity of the chunk that holds `global`, with the position of
    /// `global` inside it.
    pub fn global_to_local(&self, global: IVec3) -> (r: Option<(u64, IVec3)>)
        ensures
            r == self.locate_entity(global),
    {
        let (chunk, local) = global_to_local(global);
        match self.get(chunk) {
            Some(e) => Some((e, local)),
            None => None,
        }
    }

    /// The block at `global`, read from the blocks that `blocks` gives for
    /// the entity of its chunk.
    pub fn get_block<'a, F: FnOnce(u64) -> Option<&'a ChunkBlocks>>(
        &self,
        blocks: F,
        global: IVec3,
    ) -> (r: Option<Block>)
        requires
            forall|e: u64| blocks.requires((e,)),
        ensures
            match self.locate_entity(global) {
                None => r is None,
                Some((e, local)) => exists|res: Option<&'a ChunkBlocks>|
                    blocks.ensures((e,), res) && r == match res {
                        Some(cb) => Some(cb.at(local)),
                        None => None,
                    },
            },
    {
        match self.global_to_local(global) {
            None => None,
            Some((chunk, local)) => {
                proof {
                    lemma_locate_then_global(global);
                }
                match blocks(chunk) {
                    Some(cb) => Some(cb.get(local)),
                    None => None,
                }
            },
        }
    }

    /// Places `block` at `global`, in the blocks that `blocks` gives for the
    /// entity of its chunk; nothing happens when the chunk is not indexed or
    /// `blocks` gives nothing.
    pub fn set_block<'a, F: FnOnce(u64) -> Option<&'a mut ChunkBlocks>>(
        &self,
        blocks: F,
        global: IVec3,
        block: Block,
    )
        requires
            forall|e: u64| blocks.requires((e,)),
        ensures
            match self.locate_entity(global) {
                None => true,
                Some((e, local)) => exists|res: Option<&'a mut ChunkBlocks>|
                    blocks.ensures((e,), res) && (res matches Some(cb) ==> final(cb)@ == (*cb)@.insert(
                        local,
                        block,
                    )),
            },
    {
        match self.global_to_local(global) {
            None => {},
            Some((chunk, local)) => {
                proof {
                    lemma_locate_then_global(global);
                }
                match blocks(chunk) {
                    Some(cb) => {
                        cb.set(local, block);
                    },
                    None => {},
                }
            },
        }
    }

    /// Places `block` at `global` if the block there is weaker, in the blocks
    /// that `blocks` gives for the entity of its chunk; nothing happens when
    /// the chunk is not indexed or `blocks` gives nothing.
    pub fn set_block_if_stronger<'a, F: FnOnce(u64) -> Option<&'a mut ChunkBlocks>>(
        &self,
        blocks: F,
        global: IVec3,
        block: Block,
    )
        requires
            forall|e: u64| blocks.requires((e,)),
        ensures
            match self.locate_entity(global) {
                None => true,
                Some((e, local)) => exists|res: Option<&'a mut ChunkBlocks>|
                    blocks.ensures((e,), res) && (res matches Some(cb) ==> final(cb)@ == if (*cb).at(
                        local,
                    ).weaker_than(block) {
                        (*cb)@.insert(local, block)
                    } else {
                        (*cb)@
                    }),
            },
    {
        match self.global_to_local(global) {
            None => {},
            Some((chunk, local)) => {
                proof {
                    lemma_locate_then_global(global);
                }
                match blocks(chunk) {
                    Some(cb) => {
                        if cb.get(local).weaker_than(block) {
                            cb.set(local, block);
                        }
                    },
                    None => {},
                }
            },
        }
    }

    /// What placing a block at `global` shows of the side at position `i` of
    /// `Side::all_sides`: the entity of the neighbouring chunk across that
    /// side, when it is indexed, differs from `chunk`, and holds a block
    /// that hides faces at the position next to `global`.
    pub open spec fn remesh_entry<'a, F: Fn(u64) -> Option<&'a ChunkBlocks>>(
        self,
        blocks: F,
        global: IVec3,
        chunk: u64,
        i: int,
    ) -> Seq<u64> {
        let next = side_at(i).unit().sum(global);
        match self.locate_entity(next) {
            None => seq![],
            Some((n, _)) => if n == chunk {
                seq![]
            } else if (match self.block_at(blocks, next) {
                Some(b) => b,
                None => Block::Air,
            }).oclusion() != Oclusion::Open {
                seq![n]
            } else {
                seq![]
            },
        }
    }

    /// The entries of the first `k` sides.
    pub open spec fn remesh_upto<'a, F: Fn(u64) -> Option<&'a ChunkBlocks>>(
        self,
        blocks: F,
        global: IVec3,
        chunk: u64,
        k: int,
    ) -> Seq<u64>
        decreases k,
    {
        if k <= 0 {
            seq![]
        } else {
            self.remesh_upto(blocks, global, chunk, k - 1) + self.remesh_entry(
                blocks,
                global,
                chunk,
                k - 1,
            )
        }
    }

    /// The entities whose meshes a block placed at `global` affects: the
    /// holder of its chunk, then, side by side, the holder of each other
    /// neighbouring chunk whose block next to `global` hides faces.
    pub open spec fn remesh_spec<'a, F: Fn(u64) -> Option<&'a ChunkBlocks>>(
        self,
        blocks: F,
        global: IVec3,
    ) -> Seq<u64> {
        match self.locate_entity(global) {
            None => seq![],
            Some((e, _)) => seq![e] + self.remesh_upto(blocks, global, e, 6),
        }
    }

    /// The entities whose meshes must be rebuilt after a block is placed at
    /// `global`.
    pub fn chunks_to_remesh<'a, F: Fn(u64) -> Option<&'a ChunkBlocks>>(
        &self,
        blocks: F,
        global: IVec3,
    ) -> (r: Vec<u64>)
        requires
            forall|e: u64| blocks.requires((e,)),
            deterministic(blocks),
            neighbours_fit(global),
        ensures
            r@ == self.remesh_spec(blocks, global),
    {
        let chunk = match self.global_to_local(global) {
            None => {
                return Vec::new();
            },
            Some((chunk, _)) => chunk,
        };
        let mut r = Vec::new();
        r.push(chunk);
        let sides = Side::all_sides();
        let mut i: usize = 0;
        while i < 6
            invariant
                0 <= i <= 6,
                sides@ == seq![Side::XPos, Side::XNeg, Side::YPos, Side::YNeg, Side::ZPos, Side::ZNeg],
                forall|e: u64| blocks.requires((e,)),
                deterministic(blocks),
                neighbours_fit(global),
                self.locate_entity(global) == Some((chunk, locate(global).1)),
                r@ == seq![chunk] + self.remesh_upto(blocks, global, chunk, i as int),
            decreases 6 - i,
        {
            let side = sides[i];
            assert(side == side_at(i as int));
            let next = side.neighbour(global);
            let ghost before = r@;
            match self.global_to_local(next) {
                None => {},
                Some((n, local)) => {
                    if n != chunk {
                        proof {
                            lemma_locate_then_global(next);
                        }
                        let res = blocks(n);
                        proof {
                            assert(res == lookup(blocks, n));
                        }
                        let block = match res {
                            Some(cb) => cb.get(local),
                            None => Block::Air,
                        };
                        if block.oclusion() != Oclusion::Open {
                            r.push(n);
                        }
                    }
                },
            }
            assert(r@ == seq![chunk] + self.remesh_upto(blocks, global, chunk, i + 1));
            i = i + 1;
        }
        r
    }

    /// The chunks of the box with corners (x.0, y.0, z.0) and (x.1, y.1, z.1)
    /// that are not indexed yet, in x-major, then y, then z order.
    pub fn chunks_to_index(&self, x: (i32, i32), y: (i32, i32), z: (i32, i32)) -> (r: Vec<Chunk>)
        ensures
            forall|c: IVec3|
                #![trigger in_box(c, x, y, z)]
                (exists|i: int| 0 <= i < r@.len() && r@[i].chunk == c) <==> (in_box(c, x, y, z)
                    && !self@.contains_key(c)),
            forall|i: int, j: int| 0 <= i < j < r@.len() ==> lex_lt(r@[i].chunk, r@[j].chunk),
    {
        let mut r: Vec<Chunk> = Vec::new();
        let mut cx: i64 = x.0 as i64;
        while cx <= x.1 as i64
            invariant
                x.0 <= cx,
                cx <= x.1 as int + 1 || cx == x.0,
                self.scan_state(r@, x, y, z, (cx as int, y.0 as int, z.0 as int)),
            decreases x.1 as int + 1 - cx,
        {
            let mut cy: i64 = y.0 as i64;
            while cy <= y.1 as i64
                invariant
                    x.0 <= cx <= x.1,
                    y.0 <= cy,
                    cy <= y.1 as int + 1 || cy == y.0,
                    self.scan_state(r@, x, y, z, (cx as int, cy as int, z.0 as int)),
                decreases y.1 as int + 1 - cy,
            {
                let mut cz: i64 = z.0 as i64;
                while cz <= z.1 as i64
                    invariant
                        x.0 <= cx <= x.1,
                        y.0 <= cy <= y.1,
                        z.0 <= cz,
                        cz <= z.1 as int + 1 || cz == z.0,
                        self.scan_state(r@, x, y, z, (cx as int, cy as int, cz as int)),
                    decreases z.1 as int + 1 - cz,
                {
                    let chunk = Chunk { chunk: IVec3 { x: cx as i32, y: cy as i32, z: cz as i32 } };
                    let ghost before = r@;
                    if self.get(chunk).is_none() {
                        r.push(chunk);
                    }
                    proof {
                        self.lemma_scan_step(before, r@, x, y, z, chunk.chunk);
                    }
                    cz = cz + 1;
                }
                proof {
                    self.lemma_scan_carry(r@, x, y, z, (cx as int, cy as int, cz as int), (cx as int, cy + 1, z.0 as int));
                }
                cy = cy + 1;
            }
            proof {
                self.lemma_scan_carry(r@, x, y, z, (cx as int, cy as int, z.0 as int), (cx + 1, y.0 as int, z.0 as int));
            }
            cx = cx + 1;
        }
        proof {
            assert forall|c: IVec3|
                #![trigger in_box(c, x, y, z)]
                (exists|i: int| 0 <= i < r@.len() && r@[i].chunk == c) <==> (in_box(c, x, y, z)
                    && !self@.contains_key(c)) by {
                if in_box(c, x, y, z) && !self@.contains_key(c) {
                    assert(pos_lt(c, (cx as int, y.0 as int, z.0 as int)));
                }
                if exists|i: int| 0 <= i < r@.len() && r@[i].chunk == c {
                    let i = choose|i: int| 0 <= i < r@.len() && r@[i].chunk == c;
                    assert(in_box(r@[i].chunk, x, y, z));
                }
            }
        }
        r
    }

    /// What the box scan has gathered once it has visited every position
    /// before `p`: exactly the unindexed box positions before `p`, in order.
    pub open spec fn scan_state(
        self,
        r: Seq<Chunk>,
        x: (i32, i32),
        y: (i32, i32),
        z: (i32, i32),
        p: (int, int, int),
    ) -> bool {
        &&& forall|i: int|
            0 <= i < r.len() ==> in_box(#[trigger] r[i].chunk, x, y, z) && !self@.contains_key(
                r[i].chunk,
            ) && pos_lt(r[i].chunk, p)
        &&& forall|c: IVec3|
            #![trigger in_box(c, x, y, z)]
            in_box(c, x, y, z) && !self@.contains_key(c) && pos_lt(c, p) ==> exists|i: int|
                0 <= i < r.len() && r[i].chunk == c
        &&& forall|i: int, j: int| 0 <= i < j < r.len() ==> lex_lt(r[i].chunk, r[j].chunk)
    }

    proof fn lemma_scan_step(
        self,
        before: Seq<Chunk>,
        after: Seq<Chunk>,
        x: (i32, i32),
        y: (i32, i32),
        z: (i32, i32),
        c0: IVec3,
    )
        requires
            self.scan_state(before, x, y, z, (c0.x as int, c0.y as int, c0.z as int)),
            in_box(c0, x, y, z),
            self@.contains_key(c0) ==> after == before,
            !self@.contains_key(c0) ==> after == before.push(Chunk { chunk: c0 }),
        ensures
            self.scan_state(after, x, y, z, (c0.x as int, c0.y as int, c0.z + 1)),
    {
        let p = (c0.x as int, c0.y as int, c0.z as int);
        let q = (c0.x as int, c0.y as int, c0.z + 1);
        assert forall|i: int| 0 <= i < after.len() implies in_box(#[trigger] after[i].chunk, x, y, z)
            && !self@.contains_key(after[i].chunk) && pos_lt(after[i].chunk, q) by {
            if i < before.len() {
                assert(after[i] == before[i]);
                assert(in_box(before[i].chunk, x, y, z));
            }
        }
        assert forall|c: IVec3|
            #![trigger in_box(c, x, y, z)]
            in_box(c, x, y, z) && !self@.contains_key(c) && pos_lt(c, q) implies exists|i: int|
                0 <= i < after.len() && after[i].chunk == c by {
            if c == c0 {
                assert(after[after.len() - 1].chunk == c);
            } else {
                assert(pos_lt(c, p));
                let i = choose|i: int| 0 <= i < before.len() && before[i].chunk == c;
                assert(after[i] == before[i]);
            }
        }
        assert forall|i: int, j: int| 0 <= i < j < after.len() implies lex_lt(
            after[i].chunk,
            after[j].chunk,
        ) by {
            assert(after[i] == before[i]);
            if j < before.len() {
                assert(after[j] == before[j]);
            } else {
                assert(in_box(before[i].chunk, x, y, z));
            }
        }
    }

    proof fn lemma_scan_carry(
        self,
        r: Seq<Chunk>,
        x: (i32, i32),
        y: (i32, i32),
        z: (i32, i32),
        p: (int, int, int),
        q: (int, int, int),
    )
        requires
            self.scan_state(r, x, y, z, p),
            forall|c: IVec3| in_box(c, x, y, z) ==> (pos_lt(c, p) <==> pos_lt(c, q)),
        ensures
            self.scan_state(r, x, y, z, q),
    {
        assert forall|i: int| 0 <= i < r.len() implies in_box(#[trigger] r[i].chunk, x, y, z)
            && !self@.contains_key(r[i].chunk) && pos_lt(r[i].chunk, q) by {
            assert(in_box(r[i].chunk, x, y, z));
        }
    }

}

/// Looking a chunk up after recording its entity gives that entity; every
/// other chunk keeps its entry, or its absence.
pub proof fn lemma_index_get_after_insert(
    before: ChunksIndex,
    after: ChunksIndex,
    chunk: Chunk,
    entity: u64,
)
    requires
        after@ == before@.insert(chunk.chunk, entity),
    ensures
        after@.contains_key(chunk.chunk),
        after@[chunk.chunk] == entity,
        forall|c: IVec3| c != chunk.chunk ==> (#[trigger] after@.contains_key(c) <==> before@.contains_key(c)),
        forall|c: IVec3| c != chunk.chunk && before@.contains_key(c) ==> #[trigger] after@[c] == before@[c],
{
}

/// Whether the position across `side` from `global` lies in chunk entity `n`,
/// which differs from `chunk` and whose block there hides faces.
pub open spec fn hides_across<'a, F: Fn(u64) -> Option<&'a ChunkBlocks>>(
    index: ChunksIndex,
    blocks: F,
    global: IVec3,
    chunk: u64,
    side: Side,
    n: u64,
) -> bool {
    let next = side.unit().sum(global);
    &&& index.locate_entity(next) == Some((n, locate(next).1))
    &&& n != chunk
    &&& match index.block_at(blocks, next) {
        Some(b) => b.oclusion() != Oclusion::Open,
        None => false,
    }
}

proof fn lemma_remesh_entry<'a, F: Fn(u64) -> Option<&'a ChunkBlocks>>(
    index: ChunksIndex,
    blocks: F,
    global: IVec3,
    chunk: u64,
    j: int,
)
    requires
        0 <= j < 6,
    ensures
        index.remesh_entry(blocks, global, chunk, j).len() <= 1,
        forall|n: u64|
            #[trigger] hides_across(index, blocks, global, chunk, side_at(j), n) <==> index.remesh_entry(
                blocks,
                global,
                chunk,
                j,
            ) == seq![n],
{
    let next = side_at(j).unit().sum(global);
    assert forall|n: u64|
        #[trigger] hides_across(index, blocks, global, chunk, side_at(j), n) <==> index.remesh_entry(
            blocks,
            global,
            chunk,
            j,
        ) == seq![n] by {
        if index.remesh_entry(blocks, global, chunk, j) == seq![n] {
            assert(seq![n][0] == n);
        }
    }
}

proof fn lemma_remesh_upto<'a, F: Fn(u64) -> Option<&'a ChunkBlocks>>(
    index: ChunksIndex,
    blocks: F,
    global: IVec3,
    chunk: u64,
    k: int,
)
    requires
        0 <= k <= 6,
    ensures
        index.remesh_upto(blocks, global, chunk, k).len() <= k,
        forall|x: u64|
            index.remesh_upto(blocks, global, chunk, k).contains(x) <==> exists|j: int|
                0 <= j < k && #[trigger] index.remesh_entry(blocks, global, chunk, j) == seq![x],
    decreases k,
{
    if k > 0 {
        lemma_remesh_upto(index, blocks, global, chunk, k - 1);
        lemma_remesh_entry(index, blocks, global, chunk, k - 1);
        let prev = index.remesh_upto(blocks, global, chunk, k - 1);
        let e = index.remesh_entry(blocks, global, chunk, k - 1);
        let all = index.remesh_upto(blocks, global, chunk, k);
        assert(all == prev + e);
        assert forall|x: u64| all.contains(x) <==> exists|j: int|
            0 <= j < k && #[trigger] index.remesh_entry(blocks, global, chunk, j) == seq![x] by {
            if all.contains(x) {
                let i = choose|i: int| 0 <= i < all.len() && all[i] == x;
                if i < prev.len() {
                    assert(prev[i] == x);
                    assert(prev.contains(x));
                } else {
                    assert(e.len() == 1 && e[0] == x);
                    assert(e =~= seq![x]);
                }
            }
            if exists|j: int| 0 <= j < k && #[trigger] index.remesh_entry(blocks, global, chunk, j)
                == seq![x] {
                let j = choose|j: int| 0 <= j < k && #[trigger] index.remesh_entry(blocks, global, chunk, j)
                    == seq![x];
                if j < k - 1 {
                    assert(prev.contains(x));
                    let i = choose|i: int| 0 <= i < prev.len() && prev[i] == x;
                    assert(all[i] == x);
                } else {
                    assert(all[prev.len() as int] == x);
                }
            }
        }
    }
}

/// The chunks remeshed after a block is placed at `global`, in chunk `e`:
/// `e` itself first, then, on every one of the six sides, the chunk across
/// that side when it differs from `e` and its block next to `global` hides
/// faces; and no other chunk.
pub proof fn lemma_remesh_sides<'a, F: Fn(u64) -> Option<&'a ChunkBlocks>>(
    index: ChunksIndex,
    blocks: F,
    global: IVec3,
    e: u64,
)
    requires
        index.locate_entity(global) == Some((e, locate(global).1)),
    ensures
        1 <= index.remesh_spec(blocks, global).len() <= 7,
        index.remesh_spec(blocks, global)[0] == e,
        forall|side: Side, n: u64|
            #[trigger] hides_across(index, blocks, global, e, side, n) ==> index.remesh_spec(
                blocks,
                global,
            ).contains(n),
        forall|x: u64|
            #[trigger] index.remesh_spec(blocks, global).contains(x) ==> x == e || exists|side: Side|
                #[trigger] hides_across(index, blocks, global, e, side, x),
{
    lemma_remesh_upto(index, blocks, global, e, 6);
    let rest = index.remesh_upto(blocks, global, e, 6);
    let r = index.remesh_spec(blocks, global);
    assert(r == seq![e] + rest);
    assert forall|side: Side, n: u64|
        #[trigger] hides_across(index, blocks, global, e, side, n) implies r.contains(n) by {
        let j = side_position(side);
        assert(side_at(j) == side);
        lemma_remesh_entry(index, blocks, global, e, j);
        assert(index.remesh_entry(blocks, global, e, j) == seq![n]);
        assert(rest.contains(n));
        let i = choose|i: int| 0 <= i < rest.len() && rest[i] == n;
        assert(r[i + 1] == n);
    }
    assert forall|x: u64| #[trigger] r.contains(x) implies x == e || exists|side: Side|
        #[trigger] hides_across(index, blocks, global, e, side, x) by {
        if x != e {
            let i = choose|i: int| 0 <= i < r.len() && r[i] == x;
            assert(i >= 1);
            assert(rest[i - 1] == x);
            assert(rest.contains(x));
            let j = choose|j: int| 0 <= j < 6 && #[trigger] index.remesh_entry(blocks, global, e, j)
                == seq![x];
            lemma_remesh_entry(index, blocks, global, e, j);
            assert(hides_across(index, blocks, global, e, side_at(j), x));
        }
    }
}

/// Placing a block only where the block there is weaker never weakens the
/// block at that position: afterwards it is at least as strong as both the
/// block before and the block placed.
pub proof fn lemma_if_stronger_never_weakens(cb: ChunkBlocks, local: IVec3, block: Block)
    requires
        is_local(local),
    ensures
        ({
            let after = if cb.at(local).weaker_than(block) {
                cb@.insert(local, block)
            } else {
                cb@
            };
            &&& after[local].rank() >= cb@[local].rank()
            &&& after[local].rank() >= block.rank()
        }),
{
}

} // verus!
