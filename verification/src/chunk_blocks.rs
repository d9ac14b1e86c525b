//! The blocks of one chunk: a default kind plus the positions that differ
//! from it.
use vstd::prelude::*;

use bevy::platform::collections::HashMap;
use bevy::platform::hash::FixedHasher;

use crate::block::{Block, BLOCK_KINDS};
use crate::chunks::{is_local, Chunk, chunk_fits, global_coord};
use crate::maps::{cell_entries, cells_get, cells_insert, cells_new, cells_remove};
use crate::spacial::IVec3;

verus! {

/// The number of positions in a chunk.
pub const CHUNK_VOLUME: u32 = 32768;

/// The storage key of a local position: its rank in x-major, then y, then z
/// order.
pub open spec fn local_key(l: IVec3) -> int {
    l.x * 1024 + l.y * 32 + l.z
}

/// The local position stored under a key.
pub open spec fn key_local(k: int) -> IVec3 {
    IVec3 { x: (k / 1024) as i32, y: ((k / 32) % 32) as i32, z: (k % 32) as i32 }
}

/// Keys and local positions correspond one to one.
pub proof fn lemma_local_key(l: IVec3)
    requires
        is_local(l),
    ensures
        0 <= local_key(l) < CHUNK_VOLUME,
        key_local(local_key(l)) == l,
{
    let k = local_key(l);
    vstd::arithmetic::div_mod::lemma_fundamental_div_mod_converse(k, 1024, l.x as int, l.y * 32 + l.z);
    vstd::arithmetic::div_mod::lemma_fundamental_div_mod_converse(k, 32, l.x * 32 + l.y, l.z as int);
    vstd::arithmetic::div_mod::lemma_fundamental_div_mod_converse(l.x * 32 + l.y, 32, l.x as int, l.y as int);
}

/// Keys and local positions correspond one to one.
pub proof fn lemma_key_local(k: int)
    requires
        0 <= k < CHUNK_VOLUME,
    ensures
        is_local(key_local(k)),
        local_key(key_local(k)) == k,
{
}

fn key_of(local: IVec3) -> (r: u32)
    requires
        is_local(local),
    ensures
        r == local_key(local),
        r < CHUNK_VOLUME,
{
    (local.x * 1024 + local.y * 32 + local.z) as u32
}

/// The blocks of one chunk. Positions absent from the map hold the default
/// kind; no stored entry holds it.
pub struct ChunkBlocks {
    default: Block,
    blocks: HashMap<u32, Block, FixedHasher>,
}

/// The terrain profile of one column of a chunk: the first height above
/// stone, the first height above the sediment layer, and whether the
/// sediment is grass rather than sand.
#[derive(Clone, Copy, Debug, PartialEq, Eq, Structural)]
pub struct Column {
    pub stone_top: i32,
    pub sediment_top: i32,
    pub grassy: bool,
}

/// The block at global height `y` of a column.
pub open spec fn column_block_spec(y: int, column: Column) -> Block {
    if y < column.stone_top {
        Block::Stone
    } else if y < column.sediment_top {
        if column.grassy {
            Block::Grass
        } else {
            Block::Sand
        }
    } else if y < 0 {
        Block::Water
    } else {
        Block::Air
    }
}

/// The block at global height `y` of a column: stone below the stone top,
/// grass or sand up to the sediment top, water below sea level, air above.
pub fn column_block(y: i32, column: Column) -> (r: Block)
    ensures
        r == column_block_spec(y as int, column),
{
    if y < column.stone_top {
        Block::Stone
    } else if y < column.sediment_top {
        if column.grassy {
            Block::Grass
        } else {
            Block::Sand
        }
    } else if y < 0 {
        Block::Water
    } else {
        Block::Air
    }
}

impl ChunkBlocks {
    #[verifier::type_invariant]
    spec fn wf(self) -> bool {
        &&& cell_entries(self.blocks).dom().finite()
        &&& forall|k: u32| #[trigger]
            cell_entries(self.blocks).contains_key(k) ==> k < CHUNK_VOLUME && cell_entries(self.blocks)[k] != self.default
    }

    /// The kind of every position that is not stored explicitly.
    pub closed spec fn default_block(self) -> Block {
        self.default
    }

    /// The block stored under key `k`.
    pub closed spec fn cell(self, k: int) -> Block {
        if cell_entries(self.blocks).contains_key(k as u32) {
            cell_entries(self.blocks)[k as u32]
        } else {
            self.default
        }
    }

    /// The positions that hold an entry of their own.
    pub closed spec fn stored(self) -> Set<IVec3> {
        cell_entries(self.blocks).dom().map(|k: u32| key_local(k as int))
    }

    /// The number of entries held.
    pub closed spec fn stored_len(self) -> nat {
        cell_entries(self.blocks).len()
    }

    /// Whether exactly the positions whose block differs from the default
    /// hold an entry, one entry each.
    pub open spec fn sparse(self) -> bool {
        &&& self.stored() == Set::new(|l: IVec3| is_local(l) && self.at(l) != self.default_block())
        &&& self.stored().finite()
        &&& self.stored_len() == self.stored().len()
    }

    /// The block at a local position.
    pub open spec fn at(self, local: IVec3) -> Block {
        self.cell(local_key(local))
    }

    /// The blocks of the chunk, by local position.
    pub open spec fn view(self) -> Map<IVec3, Block> {
        Map::new(|l: IVec3| is_local(l), |l: IVec3| self.at(l))
    }

    /// The number of keys below `n` whose block is `b`.
    pub open spec fn count_below(self, n: int, b: Block) -> nat
        decreases n,
    {
        if n <= 0 {
            0
        } else {
            self.count_below(n - 1, b) + if self.cell(n - 1) == b { 1nat } else { 0nat }
        }
    }

    /// The number of positions of the chunk that hold `b`.
    pub open spec fn count(self, b: Block) -> nat {
        self.count_below(CHUNK_VOLUME as int, b)
    }

    /// A chunk of air.
    pub fn air() -> (r: ChunkBlocks)
        ensures
            r.default_block() == Block::Air,
            forall|l: IVec3| is_local(l) ==> #[trigger] r.at(l) == Block::Air,
            r.sparse(),
    {
        let r = ChunkBlocks { default: Block::Air, blocks: cells_new() };
        proof {
            lemma_sparse(r);
        }
        r
    }

    /// The block under key `k`.
    fn get_key(&self, k: u32) -> (r: Block)
        ensures
            r == self.cell(k as int),
    {
        match cells_get(&self.blocks, k) {
            Some(b) => b,
            None => self.default,
        }
    }

    /// The block at `local`; positions outside the chunk hold the default.
    pub fn get(&self, local: IVec3) -> (r: Block)
        ensures
            is_local(local) ==> r == self.at(local),
            !is_local(local) ==> r == self.default_block(),
            self.sparse(),
    {
        proof {
            use_type_invariant(self);
            lemma_sparse(*self);
        }
        if 0 <= local.x && local.x < 32 && 0 <= local.y && local.y < 32 && 0 <= local.z && local.z
            < 32 {
            self.get_key(key_of(local))
        } else {
            self.default
        }
    }

    /// Places `block` at `local`.
    pub fn set(&mut self, local: IVec3, block: Block)
        requires
            is_local(local),
        ensures
            final(self)@ == old(self)@.insert(local, block),
            final(self).default_block() == old(self).default_block(),
            final(self).sparse(),
    {
        proof {
            use_type_invariant(&*self);
            lemma_local_key(local);
        }
        let k = key_of(local);
        let mut blocks = cells_new();
        std::mem::swap(&mut blocks, &mut self.blocks);
        if block == self.default {
            cells_remove(&mut blocks, k);
        } else {
            cells_insert(&mut blocks, k, block);
        }
        self.blocks = blocks;
        proof {
            assert forall|l: IVec3| is_local(l) implies #[trigger] final(self).at(l) == old(self)@.insert(local, block)[l] by {
                lemma_local_key(l);
                if l != local {
                    assert(local_key(l) != local_key(local)) by {
                        lemma_local_key(local);
                    }
                }
            }
            assert(final(self)@ =~= old(self)@.insert(local, block));
            use_type_invariant(&*self);
            lemma_sparse(*self);
        }
    }

    /// Makes `new_default` the kind of every position not stored explicitly,
    /// without changing the block of any position.
    pub fn set_default(&mut self, new_default: Block)
        ensures
            final(self)@ == old(self)@,
            final(self).default_block() == new_default,
            final(self).sparse(),
            forall|k: int| 0 <= k < CHUNK_VOLUME ==> #[trigger] final(self).cell(k) == old(self).cell(k),
    {
        proof {
            use_type_invariant(&*self);
        }
        if new_default == self.default {
            proof {
                lemma_sparse(*self);
            }
            return;
        }
        let old_default = self.default;
        let ghost old_blocks = cell_entries(self.blocks);
        let mut blocks = cells_new();
        std::mem::swap(&mut blocks, &mut self.blocks);
        let mut k: u32 = 0;
        while k < CHUNK_VOLUME
            invariant
                0 <= k <= CHUNK_VOLUME,
                old_default != new_default,
                cell_entries(blocks).dom().finite(),
                forall|j: u32| #[trigger] old_blocks.contains_key(j) ==> j < CHUNK_VOLUME && old_blocks[j] != old_default,
                forall|j: u32| j < k ==> (#[trigger] cell_entries(blocks).contains_key(j) <==> (
                    if old_blocks.contains_key(j) { old_blocks[j] } else { old_default }) != new_default),
                forall|j: u32| j < k && #[trigger] cell_entries(blocks).contains_key(j) ==> cell_entries(blocks)[j] == (
                    if old_blocks.contains_key(j) { old_blocks[j] } else { old_default }),
                forall|j: u32| j >= k ==> (#[trigger] cell_entries(blocks).contains_key(j) <==> old_blocks.contains_key(j)),
                forall|j: u32| j >= k && #[trigger] cell_entries(blocks).contains_key(j) ==> cell_entries(blocks)[j] == old_blocks[j],
            decreases CHUNK_VOLUME - k,
        {
            match cells_get(&blocks, k) {
                Some(b) => {
                    if b == new_default {
                        cells_remove(&mut blocks, k);
                    }
                },
                None => {
                    cells_insert(&mut blocks, k, old_default);
                },
            }
            k = k + 1;
        }
        *self = ChunkBlocks { default: new_default, blocks };
        proof {
            assert forall|kk: int| 0 <= kk < CHUNK_VOLUME implies #[trigger] final(self).cell(kk) == old(self).cell(kk) by {
                let j = kk as u32;
                assert(j < CHUNK_VOLUME);
            }
            assert forall|l: IVec3| is_local(l) implies #[trigger] final(self).at(l) == old(self).at(l) by {
                lemma_local_key(l);
                let kk = local_key(l);
                assert(final(self).cell(kk) == old(self).cell(kk));
            }
            assert(final(self)@ =~= old(self)@);
            use_type_invariant(&*self);
            lemma_sparse(*self);
        }
    }

    /// A kind that holds at least as many positions as any other.
    fn most_abundant(&self) -> (r: Block)
        ensures
            forall|b: Block| #[trigger] self.count(b) <= self.count(r),
    {
        let mut counts: [u32; BLOCK_KINDS] = [0; BLOCK_KINDS];
        let mut k: u32 = 0;
        while k < CHUNK_VOLUME
            invariant
                0 <= k <= CHUNK_VOLUME,
                forall|r: int| 0 <= r < 7 ==> #[trigger] counts@[r] == self.count_below(k as int, Block::from_rank(r as u8)),
                forall|b: Block| #[trigger] self.count_below(k as int, b) <= k,
            decreases CHUNK_VOLUME - k,
        {
            let b = self.get_key(k);
            let r = b.rank() as usize;
            proof {
                assert forall|bb: Block| #[trigger] self.count_below(k + 1, bb) <= k + 1 by {
                    assert(self.count_below(k as int, bb) <= k);
                }
                assert(self.count_below(k as int, b) <= k);
            }
            counts[r] = counts[r] + 1;
            k = k + 1;
            proof {
                assert forall|rr: int| 0 <= rr < 7 implies #[trigger] counts@[rr] == self.count_below(k as int, Block::from_rank(rr as u8)) by {
                    if rr == r as int {
                        assert(Block::from_rank(rr as u8) == b);
                    } else {
                        assert(Block::from_rank(rr as u8) != b);
                    }
                }
            }
        }
        let mut best: usize = 0;
        let mut i: usize = 1;
        while i < BLOCK_KINDS
            invariant
                1 <= i <= 7,
                best < i,
                forall|rr: int| 0 <= rr < 7 ==> #[trigger] counts@[rr] == self.count(Block::from_rank(rr as u8)),
                forall|rr: int| 0 <= rr < i ==> #[trigger] counts@[rr] <= counts@[best as int],
            decreases 7 - i,
        {
            if counts[i] > counts[best] {
                best = i;
            }
            i = i + 1;
        }
        let r = Block::from_rank(best as u8);
        proof {
            assert forall|b: Block| #[trigger] self.count(b) <= self.count(r) by {
                let rb = b.rank() as int;
                assert(Block::from_rank(rb as u8) == b);
                assert(counts@[rb] <= counts@[best as int]);
            }
        }
        r
    }

    /// Makes the most abundant kind the default, without changing the block of
    /// any position.
    pub fn select_best_default(&mut self)
        ensures
            final(self)@ == old(self)@,
            forall|k: int| 0 <= k < CHUNK_VOLUME ==> #[trigger] final(self).cell(k) == old(self).cell(k),
            forall|b: Block| #[trigger] old(self).count(b) <= old(self).count(final(self).default_block()),
            final(self).sparse(),
    {
        let abundant = self.most_abundant();
        self.set_default(abundant);
    }


    /// The blocks of `chunk` for the terrain columns `columns`, where the
    /// column of local position (x, z) is `columns[x * 32 + z]`; the most
    /// abundant kind becomes the default.
    pub fn new(chunk: Chunk, columns: &Vec<Column>) -> (r: ChunkBlocks)
        requires
            columns.len() == 1024,
            chunk_fits(chunk),
        ensures
            forall|l: IVec3| #[trigger] is_local(l) ==> r.at(l) == column_block_spec(
                global_coord(chunk.chunk.y, l.y),
                columns@[l.x * 32 + l.z],
            ),
            forall|b: Block| #[trigger] r.count(b) <= r.count(r.default_block()),
            r.sparse(),
    {
        let mut blocks = Self::air();
        let mut x: i32 = 0;
        while x < 32
            invariant
                0 <= x <= 32,
                columns.len() == 1024,
                chunk_fits(chunk),
                forall|l: IVec3| #[trigger] is_local(l) ==> blocks.at(l) == if l.x < x {
                    column_block_spec(global_coord(chunk.chunk.y, l.y), columns@[l.x * 32 + l.z])
                } else {
                    Block::Air
                },
            decreases 32 - x,
        {
            let mut z: i32 = 0;
            while z < 32
                invariant
                    0 <= x < 32,
                    0 <= z <= 32,
                    columns.len() == 1024,
                    chunk_fits(chunk),
                    forall|l: IVec3| #[trigger] is_local(l) ==> blocks.at(l) == if l.x < x || (l.x == x
                        && l.z < z) {
                        column_block_spec(global_coord(chunk.chunk.y, l.y), columns@[l.x * 32 + l.z])
                    } else {
                        Block::Air
                    },
                decreases 32 - z,
            {
                let column = columns[(x * 32 + z) as usize];
                let mut y: i32 = 0;
                while y < 32
                    invariant
                        0 <= x < 32,
                        0 <= z < 32,
                        0 <= y <= 32,
                        columns.len() == 1024,
                        chunk_fits(chunk),
                        column == columns@[x * 32 + z],
                        forall|l: IVec3| #[trigger] is_local(l) ==> blocks.at(l) == if l.x < x || (l.x
                            == x && l.z < z) || (l.x == x && l.z == z && l.y < y) {
                            column_block_spec(global_coord(chunk.chunk.y, l.y), columns@[l.x * 32 + l.z])
                        } else {
                            Block::Air
                        },
                    decreases 32 - y,
                {
                    let local = IVec3 { x, y, z };
                    let global_y = 32 * chunk.chunk.y + y;
                    let block = column_block(global_y, column);
                    let ghost before = blocks;
                    blocks.set(local, block);
                    proof {
                        assert forall|l: IVec3| #[trigger] is_local(l) implies blocks.at(l) == if l.x < x || (l.x
                            == x && l.z < z) || (l.x == x && l.z == z && l.y < y + 1) {
                            column_block_spec(global_coord(chunk.chunk.y, l.y), columns@[l.x * 32 + l.z])
                        } else {
                            Block::Air
                        } by {
                            assert(blocks@[l] == blocks.at(l));
                            assert(before@[l] == before.at(l));
                        }
                    }
                    y = y + 1;
                }
                z = z + 1;
            }
            x = x + 1;
        }
        let ghost filled = blocks;
        blocks.select_best_default();
        proof {
            assert forall|l: IVec3| #[trigger] is_local(l) implies blocks.at(l) == filled.at(l) by {
                assert(blocks@[l] == blocks.at(l));
                assert(filled@[l] == filled.at(l));
            }
            assert forall|b: Block| #[trigger] blocks.count(b) <= blocks.count(blocks.default_block()) by {
                lemma_count_same(blocks, filled, CHUNK_VOLUME as int, b);
                lemma_count_same(blocks, filled, CHUNK_VOLUME as int, blocks.default_block());
                assert(filled.count(b) <= filled.count(blocks.default_block()));
            }
        }
        blocks
    }

}

/// The blocks of a tree, relative to the ground block it grows from: a
/// trunk of four logs crowned by leaves.
pub open spec fn tree_spec() -> Seq<(IVec3, Block)> {
    seq![
        (IVec3 { x: 0i32, y: 0i32, z: 0i32 }, Block::Log),
        (IVec3 { x: 0i32, y: 1i32, z: 0i32 }, Block::Log),
        (IVec3 { x: 0i32, y: 2i32, z: 0i32 }, Block::Log),
        (IVec3 { x: 0i32, y: 3i32, z: 0i32 }, Block::Log),
        (IVec3 { x: 1i32, y: 3i32, z: 0i32 }, Block::Leaves),
        (IVec3 { x: 1i32, y: 3i32, z: 1i32 }, Block::Leaves),
        (IVec3 { x: 0i32, y: 3i32, z: 1i32 }, Block::Leaves),
        (IVec3 { x: -1i32, y: 3i32, z: 1i32 }, Block::Leaves),
        (IVec3 { x: -1i32, y: 3i32, z: 0i32 }, Block::Leaves),
        (IVec3 { x: -1i32, y: 3i32, z: -1i32 }, Block::Leaves),
        (IVec3 { x: 0i32, y: 3i32, z: -1i32 }, Block::Leaves),
        (IVec3 { x: 1i32, y: 3i32, z: -1i32 }, Block::Leaves),
        (IVec3 { x: 1i32, y: 4i32, z: 0i32 }, Block::Leaves),
        (IVec3 { x: 1i32, y: 4i32, z: 1i32 }, Block::Leaves),
        (IVec3 { x: 0i32, y: 4i32, z: 1i32 }, Block::Leaves),
        (IVec3 { x: -1i32, y: 4i32, z: 1i32 }, Block::Leaves),
        (IVec3 { x: -1i32, y: 4i32, z: 0i32 }, Block::Leaves),
        (IVec3 { x: -1i32, y: 4i32, z: -1i32 }, Block::Leaves),
        (IVec3 { x: 0i32, y: 4i32, z: -1i32 }, Block::Leaves),
        (IVec3 { x: 1i32, y: 4i32, z: -1i32 }, Block::Leaves),
        (IVec3 { x: 0i32, y: 4i32, z: 0i32 }, Block::Leaves),
        (IVec3 { x: 0i32, y: 5i32, z: 0i32 }, Block::Leaves)
    ]
}

/// The blocks of a tree, relative to the ground block it grows from, in the
/// order they are placed.
pub fn build_tree() -> (r: Vec<(IVec3, Block)>)
    ensures
        r@ == tree_spec(),
{
    let r = vec![
        (IVec3 { x: 0, y: 0, z: 0 }, Block::Log),
        (IVec3 { x: 0, y: 1, z: 0 }, Block::Log),
        (IVec3 { x: 0, y: 2, z: 0 }, Block::Log),
        (IVec3 { x: 0, y: 3, z: 0 }, Block::Log),
        (IVec3 { x: 1, y: 3, z: 0 }, Block::Leaves),
        (IVec3 { x: 1, y: 3, z: 1 }, Block::Leaves),
        (IVec3 { x: 0, y: 3, z: 1 }, Block::Leaves),
        (IVec3 { x: -1, y: 3, z: 1 }, Block::Leaves),
        (IVec3 { x: -1, y: 3, z: 0 }, Block::Leaves),
        (IVec3 { x: -1, y: 3, z: -1 }, Block::Leaves),
        (IVec3 { x: 0, y: 3, z: -1 }, Block::Leaves),
        (IVec3 { x: 1, y: 3, z: -1 }, Block::Leaves),
        (IVec3 { x: 1, y: 4, z: 0 }, Block::Leaves),
        (IVec3 { x: 1, y: 4, z: 1 }, Block::Leaves),
        (IVec3 { x: 0, y: 4, z: 1 }, Block::Leaves),
        (IVec3 { x: -1, y: 4, z: 1 }, Block::Leaves),
        (IVec3 { x: -1, y: 4, z: 0 }, Block::Leaves),
        (IVec3 { x: -1, y: 4, z: -1 }, Block::Leaves),
        (IVec3 { x: 0, y: 4, z: -1 }, Block::Leaves),
        (IVec3 { x: 1, y: 4, z: -1 }, Block::Leaves),
        (IVec3 { x: 0, y: 4, z: 0 }, Block::Leaves),
        (IVec3 { x: 0, y: 5, z: 0 }, Block::Leaves)
    ];
    assert(r@ =~= tree_spec());
    r
}

/// The shape of a tree, by offset from the ground block it grows from: a
/// trunk of logs from the ground up to height 3; leaves on the eight places
/// around the trunk at height 3, on the whole three-by-three layer at height
/// 4, and on the top at height 5.
pub open spec fn tree_shape(rel: IVec3) -> Option<Block> {
    if rel.x == 0 && rel.z == 0 && 0 <= rel.y <= 3 {
        Some(Block::Log)
    } else if -1 <= rel.x <= 1 && -1 <= rel.z <= 1 && 3 <= rel.y <= 4 {
        Some(Block::Leaves)
    } else if rel.x == 0 && rel.z == 0 && rel.y == 5 {
        Some(Block::Leaves)
    } else {
        None
    }
}

spec fn tree_slot(rel: IVec3) -> int {
    if (rel.x + 1) * 18 + rel.y * 3 + (rel.z + 1) < 29 {
        if (rel.x + 1) * 18 + rel.y * 3 + (rel.z + 1) < 14 {
            if (rel.x + 1) * 18 + rel.y * 3 + (rel.z + 1) < 11 {
                if (rel.x + 1) * 18 + rel.y * 3 + (rel.z + 1) < 10 {
                    if rel == (IVec3 { x: -1i32, y: 3i32, z: -1i32 }) {
                        9
                    } else {
                        -1
                    }
                } else {
                    if rel == (IVec3 { x: -1i32, y: 3i32, z: 0i32 }) {
                        8
                    } else {
                        -1
                    }
                }
            } else {
                if (rel.x + 1) * 18 + rel.y * 3 + (rel.z + 1) < 12 {
                    if rel == (IVec3 { x: -1i32, y: 3i32, z: 1i32 }) {
                        7
                    } else {
                        -1
                    }
                } else {
                    if (rel.x + 1) * 18 + rel.y * 3 + (rel.z + 1) < 13 {
                        if rel == (IVec3 { x: -1i32, y: 4i32, z: -1i32 }) {
                            17
                        } else {
                            -1
                        }
                    } else {
                        if rel == (IVec3 { x: -1i32, y: 4i32, z: 0i32 }) {
                            16
                        } else {
                            -1
                        }
                    }
                }
            }
        } else {
            if (rel.x + 1) * 18 + rel.y * 3 + (rel.z + 1) < 25 {
                if (rel.x + 1) * 18 + rel.y * 3 + (rel.z + 1) < 19 {
                    if rel == (IVec3 { x: -1i32, y: 4i32, z: 1i32 }) {
                        15
                    } else {
                        -1
                    }
                } else {
                    if (rel.x + 1) * 18 + rel.y * 3 + (rel.z + 1) < 22 {
                        if rel == (IVec3 { x: 0i32, y: 0i32, z: 0i32 }) {
                            0
                        } else {
                            -1
                        }
                    } else {
                        if rel == (IVec3 { x: 0i32, y: 1i32, z: 0i32 }) {
                            1
                        } else {
                            -1
                        }
                    }
                }
            } else {
                if (rel.x + 1) * 18 + rel.y * 3 + (rel.z + 1) < 27 {
                    if rel == (IVec3 { x: 0i32, y: 2i32, z: 0i32 }) {
                        2
                    } else {
                        -1
                    }
                } else {
                    if (rel.x + 1) * 18 + rel.y * 3 + (rel.z + 1) < 28 {
                        if rel == (IVec3 { x: 0i32, y: 3i32, z: -1i32 }) {
                            10
                        } else {
                            -1
                        }
                    } else {
                        if rel == (IVec3 { x: 0i32, y: 3i32, z: 0i32 }) {
                            3
                        } else {
                            -1
                        }
                    }
                }
            }
        }
    } else {
        if (rel.x + 1) * 18 + rel.y * 3 + (rel.z + 1) < 45 {
            if (rel.x + 1) * 18 + rel.y * 3 + (rel.z + 1) < 31 {
                if (rel.x + 1) * 18 + rel.y * 3 + (rel.z + 1) < 30 {
                    if rel == (IVec3 { x: 0i32, y: 3i32, z: 1i32 }) {
                        6
                    } else {
                        -1
                    }
                } else {
                    if rel == (IVec3 { x: 0i32, y: 4i32, z: -1i32 }) {
                        18
                    } else {
                        -1
                    }
                }
            } else {
                if (rel.x + 1) * 18 + rel.y * 3 + (rel.z + 1) < 32 {
                    if rel == (IVec3 { x: 0i32, y: 4i32, z: 0i32 }) {
                        20
                    } else {
                        -1
                    }
                } else {
                    if (rel.x + 1) * 18 + rel.y * 3 + (rel.z + 1) < 34 {
                        if rel == (IVec3 { x: 0i32, y: 4i32, z: 1i32 }) {
                            14
                        } else {
                            -1
                        }
                    } else {
                        if rel == (IVec3 { x: 0i32, y: 5i32, z: 0i32 }) {
                            21
                        } else {
                            -1
                        }
                    }
                }
            }
        } else {
            if (rel.x + 1) * 18 + rel.y * 3 + (rel.z + 1) < 48 {
                if (rel.x + 1) * 18 + rel.y * 3 + (rel.z + 1) < 46 {
                    if rel == (IVec3 { x: 1i32, y: 3i32, z: -1i32 }) {
                        11
                    } else {
                        -1
                    }
                } else {
                    if (rel.x + 1) * 18 + rel.y * 3 + (rel.z + 1) < 47 {
                        if rel == (IVec3 { x: 1i32, y: 3i32, z: 0i32 }) {
                            4
                        } else {
                            -1
                        }
                    } else {
                        if rel == (IVec3 { x: 1i32, y: 3i32, z: 1i32 }) {
                            5
                        } else {
                            -1
                        }
                    }
                }
            } else {
                if (rel.x + 1) * 18 + rel.y * 3 + (rel.z + 1) < 49 {
                    if rel == (IVec3 { x: 1i32, y: 4i32, z: -1i32 }) {
                        19
                    } else {
                        -1
                    }
                } else {
                    if (rel.x + 1) * 18 + rel.y * 3 + (rel.z + 1) < 50 {
                        if rel == (IVec3 { x: 1i32, y: 4i32, z: 0i32 }) {
                            12
                        } else {
                            -1
                        }
                    } else {
                        if rel == (IVec3 { x: 1i32, y: 4i32, z: 1i32 }) {
                            13
                        } else {
                            -1
                        }
                    }
                }
            }
        }
    }
}

/// The blocks of a tree are exactly its shape: every block placed belongs to
/// the shape with its kind, no offset is placed twice, and every offset of
/// the shape is placed.
pub proof fn lemma_tree_shape()
    ensures
        tree_spec().len() == 22,
        forall|i: int| 0 <= i < 22 ==> tree_shape(#[trigger] tree_spec()[i].0) == Some(tree_spec()[i].1),
        forall|i: int, j: int|
            0 <= i < 22 && 0 <= j < 22 && (#[trigger] tree_spec()[i]).0 == (#[trigger] tree_spec()[j]).0
                ==> i == j,
        forall|rel: IVec3|
            #[trigger] tree_shape(rel) is Some ==> exists|i: int| 0 <= i < 22 && (#[trigger] tree_spec()[i]).0 == rel,
{
    let t = tree_spec();
    assert forall|i: int| 0 <= i < 22 implies tree_shape(#[trigger] t[i].0) == Some(t[i].1) && tree_slot(
        t[i].0,
    ) == i by {
        if i < 11 {
            if i < 5 {
                if i < 2 {
                    if i < 1 {
                        assert(tree_shape(t[0].0) == Some(t[0].1) && tree_slot(t[0].0) == 0);
                    } else {
                        assert(tree_shape(t[1].0) == Some(t[1].1) && tree_slot(t[1].0) == 1);
                    }
                } else {
                    if i < 3 {
                        assert(tree_shape(t[2].0) == Some(t[2].1) && tree_slot(t[2].0) == 2);
                    } else {
                        if i < 4 {
                            assert(tree_shape(t[3].0) == Some(t[3].1) && tree_slot(t[3].0) == 3);
                        } else {
                            assert(tree_shape(t[4].0) == Some(t[4].1) && tree_slot(t[4].0) == 4);
                        }
                    }
                }
            } else {
                if i < 8 {
                    if i < 6 {
                        assert(tree_shape(t[5].0) == Some(t[5].1) && tree_slot(t[5].0) == 5);
                    } else {
                        if i < 7 {
                            assert(tree_shape(t[6].0) == Some(t[6].1) && tree_slot(t[6].0) == 6);
                        } else {
                            assert(tree_shape(t[7].0) == Some(t[7].1) && tree_slot(t[7].0) == 7);
                        }
                    }
                } else {
                    if i < 9 {
                        assert(tree_shape(t[8].0) == Some(t[8].1) && tree_slot(t[8].0) == 8);
                    } else {
                        if i < 10 {
                            assert(tree_shape(t[9].0) == Some(t[9].1) && tree_slot(t[9].0) == 9);
                        } else {
                            assert(tree_shape(t[10].0) == Some(t[10].1) && tree_slot(t[10].0) == 10);
                        }
                    }
                }
            }
        } else {
            if i < 16 {
                if i < 13 {
                    if i < 12 {
                        assert(tree_shape(t[11].0) == Some(t[11].1) && tree_slot(t[11].0) == 11);
                    } else {
                        assert(tree_shape(t[12].0) == Some(t[12].1) && tree_slot(t[12].0) == 12);
                    }
                } else {
                    if i < 14 {
                        assert(tree_shape(t[13].0) == Some(t[13].1) && tree_slot(t[13].0) == 13);
                    } else {
                        if i < 15 {
                            assert(tree_shape(t[14].0) == Some(t[14].1) && tree_slot(t[14].0) == 14);
                        } else {
                            assert(tree_shape(t[15].0) == Some(t[15].1) && tree_slot(t[15].0) == 15);
                        }
                    }
                }
            } else {
                if i < 19 {
                    if i < 17 {
                        assert(tree_shape(t[16].0) == Some(t[16].1) && tree_slot(t[16].0) == 16);
                    } else {
                        if i < 18 {
                            assert(tree_shape(t[17].0) == Some(t[17].1) && tree_slot(t[17].0) == 17);
                        } else {
                            assert(tree_shape(t[18].0) == Some(t[18].1) && tree_slot(t[18].0) == 18);
                        }
                    }
                } else {
                    if i < 20 {
                        assert(tree_shape(t[19].0) == Some(t[19].1) && tree_slot(t[19].0) == 19);
                    } else {
                        if i < 21 {
                            assert(tree_shape(t[20].0) == Some(t[20].1) && tree_slot(t[20].0) == 20);
                        } else {
                            assert(tree_shape(t[21].0) == Some(t[21].1) && tree_slot(t[21].0) == 21);
                        }
                    }
                }
            }
        }
    }
    assert forall|i: int, j: int|
        0 <= i < 22 && 0 <= j < 22 && (#[trigger] t[i]).0 == (#[trigger] t[j]).0 implies i == j by {
        assert(tree_slot(t[i].0) == i);
        assert(tree_slot(t[j].0) == j);
    }
    assert forall|rel: IVec3| #[trigger] tree_shape(rel) is Some implies exists|i: int|
        0 <= i < 22 && (#[trigger] t[i]).0 == rel by {
        if (rel.x + 1) * 18 + rel.y * 3 + (rel.z + 1) < 29 {
            if (rel.x + 1) * 18 + rel.y * 3 + (rel.z + 1) < 14 {
                if (rel.x + 1) * 18 + rel.y * 3 + (rel.z + 1) < 11 {
                    if (rel.x + 1) * 18 + rel.y * 3 + (rel.z + 1) < 10 {
                        if rel == (IVec3 { x: -1i32, y: 3i32, z: -1i32 }) {
                            assert(t[9].0 == rel);
                        }
                    } else {
                        if rel == (IVec3 { x: -1i32, y: 3i32, z: 0i32 }) {
                            assert(t[8].0 == rel);
                        }
                    }
                } else {
                    if (rel.x + 1) * 18 + rel.y * 3 + (rel.z + 1) < 12 {
                        if rel == (IVec3 { x: -1i32, y: 3i32, z: 1i32 }) {
                            assert(t[7].0 == rel);
                        }
                    } else {
                        if (rel.x + 1) * 18 + rel.y * 3 + (rel.z + 1) < 13 {
                            if rel == (IVec3 { x: -1i32, y: 4i32, z: -1i32 }) {
                                assert(t[17].0 == rel);
                            }
                        } else {
                            if rel == (IVec3 { x: -1i32, y: 4i32, z: 0i32 }) {
                                assert(t[16].0 == rel);
                            }
                        }
                    }
                }
            } else {
                if (rel.x + 1) * 18 + rel.y * 3 + (rel.z + 1) < 25 {
                    if (rel.x + 1) * 18 + rel.y * 3 + (rel.z + 1) < 19 {
                        if rel == (IVec3 { x: -1i32, y: 4i32, z: 1i32 }) {
                            assert(t[15].0 == rel);
                        }
                    } else {
                        if (rel.x + 1) * 18 + rel.y * 3 + (rel.z + 1) < 22 {
                            if rel == (IVec3 { x: 0i32, y: 0i32, z: 0i32 }) {
                                assert(t[0].0 == rel);
                            }
                        } else {
                            if rel == (IVec3 { x: 0i32, y: 1i32, z: 0i32 }) {
                                assert(t[1].0 == rel);
                            }
                        }
                    }
                } else {
                    if (rel.x + 1) * 18 + rel.y * 3 + (rel.z + 1) < 27 {
                        if rel == (IVec3 { x: 0i32, y: 2i32, z: 0i32 }) {
                            assert(t[2].0 == rel);
                        }
                    } else {
                        if (rel.x + 1) * 18 + rel.y * 3 + (rel.z + 1) < 28 {
                            if rel == (IVec3 { x: 0i32, y: 3i32, z: -1i32 }) {
                                assert(t[10].0 == rel);
                            }
                        } else {
                            if rel == (IVec3 { x: 0i32, y: 3i32, z: 0i32 }) {
                                assert(t[3].0 == rel);
                            }
                        }
                    }
                }
            }
        } else {
            if (rel.x + 1) * 18 + rel.y * 3 + (rel.z + 1) < 45 {
                if (rel.x + 1) * 18 + rel.y * 3 + (rel.z + 1) < 31 {
                    if (rel.x + 1) * 18 + rel.y * 3 + (rel.z + 1) < 30 {
                        if rel == (IVec3 { x: 0i32, y: 3i32, z: 1i32 }) {
                            assert(t[6].0 == rel);
                        }
                    } else {
                        if rel == (IVec3 { x: 0i32, y: 4i32, z: -1i32 }) {
                            assert(t[18].0 == rel);
                        }
                    }
                } else {
                    if (rel.x + 1) * 18 + rel.y * 3 + (rel.z + 1) < 32 {
                        if rel == (IVec3 { x: 0i32, y: 4i32, z: 0i32 }) {
                            assert(t[20].0 == rel);
                        }
                    } else {
                        if (rel.x + 1) * 18 + rel.y * 3 + (rel.z + 1) < 34 {
                            if rel == (IVec3 { x: 0i32, y: 4i32, z: 1i32 }) {
                                assert(t[14].0 == rel);
                            }
                        } else {
                            if rel == (IVec3 { x: 0i32, y: 5i32, z: 0i32 }) {
                                assert(t[21].0 == rel);
                            }
                        }
                    }
                }
            } else {
                if (rel.x + 1) * 18 + rel.y * 3 + (rel.z + 1) < 48 {
                    if (rel.x + 1) * 18 + rel.y * 3 + (rel.z + 1) < 46 {
                        if rel == (IVec3 { x: 1i32, y: 3i32, z: -1i32 }) {
                            assert(t[11].0 == rel);
                        }
                    } else {
                        if (rel.x + 1) * 18 + rel.y * 3 + (rel.z + 1) < 47 {
                            if rel == (IVec3 { x: 1i32, y: 3i32, z: 0i32 }) {
                                assert(t[4].0 == rel);
                            }
                        } else {
                            if rel == (IVec3 { x: 1i32, y: 3i32, z: 1i32 }) {
                                assert(t[5].0 == rel);
                            }
                        }
                    }
                } else {
                    if (rel.x + 1) * 18 + rel.y * 3 + (rel.z + 1) < 49 {
                        if rel == (IVec3 { x: 1i32, y: 4i32, z: -1i32 }) {
                            assert(t[19].0 == rel);
                        }
                    } else {
                        if (rel.x + 1) * 18 + rel.y * 3 + (rel.z + 1) < 50 {
                            if rel == (IVec3 { x: 1i32, y: 4i32, z: 0i32 }) {
                                assert(t[12].0 == rel);
                            }
                        } else {
                            if rel == (IVec3 { x: 1i32, y: 4i32, z: 1i32 }) {
                                assert(t[13].0 == rel);
                            }
                        }
                    }
                }
            }
        }
    }
}

/// A tree may grow from a grass block with air above it.
pub fn is_tree_site(ground: Block, above: Block) -> (r: bool)
    ensures
        r <==> ground == Block::Grass && above == Block::Air,
{
    ground == Block::Grass && above == Block::Air
}

/// Reading a position after a block was placed there gives that block, and
/// every other position of the chunk keeps its block.
pub proof fn lemma_get_after_set(before: ChunkBlocks, after: ChunkBlocks, local: IVec3, block: Block)
    requires
        is_local(local),
        after@ == before@.insert(local, block),
    ensures
        after.at(local) == block,
        forall|l: IVec3| is_local(l) && l != local ==> #[trigger] after.at(l) == before.at(l),
{
    assert(after@[local] == after.at(local));
    assert forall|l: IVec3| is_local(l) && l != local implies #[trigger] after.at(l) == before.at(l) by {
        assert(after@[l] == after.at(l));
        assert(before@[l] == before.at(l));
    }
}

/// The positions of the area around a chunk: the chunk and its 26
/// neighbours, in coordinates relative to the chunk's origin.
pub open spec fn in_area(a: IVec3) -> bool {
    &&& -32 <= a.x < 64
    &&& -32 <= a.y < 64
    &&& -32 <= a.z < 64
}

/// The slot of the area that holds area position `a`: the chunk at offset
/// (dx, dy, dz) from the middle one sits at (dx + 1) * 9 + (dy + 1) * 3 +
/// (dz + 1).
pub open spec fn area_slot(a: IVec3) -> int {
    ((a.x + 32) / 32) * 9 + ((a.y + 32) / 32) * 3 + (a.z + 32) / 32
}

/// The position of area position `a` inside the chunk that holds it.
pub open spec fn area_local(a: IVec3) -> IVec3 {
    IVec3 { x: ((a.x + 32) % 32) as i32, y: ((a.y + 32) % 32) as i32, z: ((a.z + 32) % 32) as i32 }
}

/// The blocks of each chunk of an area.
pub open spec fn area_views(area: Seq<ChunkBlocks>) -> Seq<Map<IVec3, Block>> {
    area.map_values(|cb: ChunkBlocks| cb@)
}

/// The block at area position `a`, if the area holds it.
pub open spec fn area_block(w: Seq<Map<IVec3, Block>>, a: IVec3) -> Option<Block> {
    if in_area(a) {
        Some(w[area_slot(a)][area_local(a)])
    } else {
        None
    }
}

/// Places `b` at area position `a` if the block there is weaker; nothing
/// happens outside the area.
pub open spec fn area_place_if_stronger(w: Seq<Map<IVec3, Block>>, a: IVec3, b: Block) -> Seq<
    Map<IVec3, Block>,
> {
    match area_block(w, a) {
        Some(old) => if old.weaker_than(b) {
            w.update(area_slot(a), w[area_slot(a)].insert(area_local(a), b))
        } else {
            w
        },
        None => w,
    }
}

/// The position `rel` away from `a`.
pub open spec fn offset(a: IVec3, rel: IVec3) -> IVec3 {
    IVec3 { x: (a.x + rel.x) as i32, y: (a.y + rel.y) as i32, z: (a.z + rel.z) as i32 }
}

/// The area after the first `n` blocks of a tree grown from `a` were placed
/// where they are stronger.
pub open spec fn grow_tree_upto(w: Seq<Map<IVec3, Block>>, a: IVec3, n: int) -> Seq<Map<IVec3, Block>>
    decreases n,
{
    if n <= 0 {
        w
    } else {
        let (rel, b) = tree_spec()[n - 1];
        area_place_if_stronger(grow_tree_upto(w, a, n - 1), offset(a, rel), b)
    }
}

/// Whether a tree may grow from area position `a`.
pub open spec fn area_tree_site(w: Seq<Map<IVec3, Block>>, a: IVec3) -> bool {
    &&& area_block(w, a) == Some(Block::Grass)
    &&& area_block(w, offset(a, IVec3 { x: 0, y: 1, z: 0 })) == Some(Block::Air)
}

/// The area after the positions of the middle chunk with keys below `n` were
/// visited in x, then y, then z order, a tree growing from each lucky site.
pub open spec fn plant_upto(w: Seq<Map<IVec3, Block>>, lucky: Seq<bool>, n: int) -> Seq<
    Map<IVec3, Block>,
>
    decreases n,
{
    if n <= 0 {
        w
    } else {
        let v = plant_upto(w, lucky, n - 1);
        let a = key_local(n - 1);
        if lucky[n - 1] && area_tree_site(v, a) {
            grow_tree_upto(v, a, tree_spec().len() as int)
        } else {
            v
        }
    }
}

/// The offsets of a tree stay within one block sideways and five upwards.
proof fn lemma_tree_offsets()
    ensures
        tree_spec().len() == 22,
        forall|i: int|
            0 <= i < 22 ==> {
                let rel = #[trigger] tree_spec()[i].0;
                &&& -1 <= rel.x <= 1
                &&& 0 <= rel.y <= 5
                &&& -1 <= rel.z <= 1
            },
{
    let t = tree_spec();
    assert forall|i: int| 0 <= i < 22 implies {
        let rel = #[trigger] t[i].0;
        &&& -1 <= rel.x <= 1
        &&& 0 <= rel.y <= 5
        &&& -1 <= rel.z <= 1
    } by {
        if i == 0 {
        } else if i == 1 {
        } else if i == 2 {
        } else if i == 3 {
        } else if i == 4 {
        } else if i == 5 {
        } else if i == 6 {
        } else if i == 7 {
        } else if i == 8 {
        } else if i == 9 {
        } else if i == 10 {
        } else if i == 11 {
        } else if i == 12 {
        } else if i == 13 {
        } else if i == 14 {
        } else if i == 15 {
        } else if i == 16 {
        } else if i == 17 {
        } else if i == 18 {
        } else if i == 19 {
        } else if i == 20 {
        } else if i == 21 {
        }
    }
}

fn local_of(k: u32) -> (r: IVec3)
    requires
        k < CHUNK_VOLUME,
    ensures
        r == key_local(k as int),
        is_local(r),
{
    proof {
        lemma_key_local(k as int);
    }
    IVec3 { x: (k / 1024) as i32, y: ((k / 32) % 32) as i32, z: (k % 32) as i32 }
}

/// The block at area position `a`, if the area holds it.
fn area_get(area: &Vec<ChunkBlocks>, a: IVec3) -> (r: Option<Block>)
    requires
        area.len() == 27,
    ensures
        r == area_block(area_views(area@), a),
{
    if -32 <= a.x && a.x < 64 && -32 <= a.y && a.y < 64 && -32 <= a.z && a.z < 64 {
        let s = (((a.x + 32) / 32) * 9 + ((a.y + 32) / 32) * 3 + (a.z + 32) / 32) as usize;
        let l = IVec3 { x: (a.x + 32) % 32, y: (a.y + 32) % 32, z: (a.z + 32) % 32 };
        assert(is_local(l));
        let r = area[s].get(l);
        assert(area_views(area@)[s as int] == area@[s as int]@);
        Some(r)
    } else {
        None
    }
}

/// Places `b` at area position `a` if the block there is weaker.
fn area_set_if_stronger(area: &mut Vec<ChunkBlocks>, a: IVec3, b: Block)
    requires
        old(area).len() == 27,
    ensures
        final(area).len() == 27,
        area_views(final(area)@) == area_place_if_stronger(area_views(old(area)@), a, b),
{
    if -32 <= a.x && a.x < 64 && -32 <= a.y && a.y < 64 && -32 <= a.z && a.z < 64 {
        let s = (((a.x + 32) / 32) * 9 + ((a.y + 32) / 32) * 3 + (a.z + 32) / 32) as usize;
        let l = IVec3 { x: (a.x + 32) % 32, y: (a.y + 32) % 32, z: (a.z + 32) % 32 };
        assert(is_local(l));
        let ghost w = area_views(area@);
        assert(w[s as int] == area@[s as int]@);
        if area[s].get(l).weaker_than(b) {
            area[s].set(l, b);
            assert(area_views(area@) =~= w.update(s as int, w[s as int].insert(l, b)));
        }
    }
}

/// Grows trees in the middle chunk of `area`, the 27 chunks around and
/// including it (slot (dx + 1) * 9 + (dy + 1) * 3 + (dz + 1) holds the chunk
/// at offset (dx, dy, dz)). Its positions are visited in x, then y, then z
/// order; where `lucky` holds at the position's key and the position is
/// grass under air, the blocks of a tree are placed wherever they are
/// stronger than the blocks already there.
pub fn plant_trees(area: &mut Vec<ChunkBlocks>, lucky: &Vec<bool>)
    requires
        old(area).len() == 27,
        lucky.len() == CHUNK_VOLUME,
    ensures
        final(area).len() == 27,
        area_views(final(area)@) == plant_upto(area_views(old(area)@), lucky@, CHUNK_VOLUME as int),
{
    let tree = build_tree();
    proof {
        lemma_tree_offsets();
    }
    let mut k: u32 = 0;
    while k < CHUNK_VOLUME
        invariant
            0 <= k <= CHUNK_VOLUME,
            area.len() == 27,
            lucky.len() == CHUNK_VOLUME,
            tree@ == tree_spec(),
            tree_spec().len() == 22,
            forall|i: int|
                0 <= i < 22 ==> {
                    let rel = #[trigger] tree_spec()[i].0;
                    &&& -1 <= rel.x <= 1
                    &&& 0 <= rel.y <= 5
                    &&& -1 <= rel.z <= 1
                },
            area_views(area@) == plant_upto(area_views(old(area)@), lucky@, k as int),
        decreases CHUNK_VOLUME - k,
    {
        let a = local_of(k);
        let above = IVec3 { x: a.x, y: a.y + 1, z: a.z };
        let ghost v = area_views(area@);
        let ground = area_get(area, a);
        let over = area_get(area, above);
        let site = match (ground, over) {
            (Some(g), Some(o)) => is_tree_site(g, o),
            _ => false,
        };
        if lucky[k as usize] && site {
            let mut i: usize = 0;
            while i < tree.len()
                invariant
                    0 <= i <= 22,
                    area.len() == 27,
                    is_local(a),
                    tree@ == tree_spec(),
                    tree_spec().len() == 22,
                    forall|j: int|
                        0 <= j < 22 ==> {
                            let rel = #[trigger] tree_spec()[j].0;
                            &&& -1 <= rel.x <= 1
                            &&& 0 <= rel.y <= 5
                            &&& -1 <= rel.z <= 1
                        },
                    area_views(area@) == grow_tree_upto(v, a, i as int),
                decreases 22 - i,
            {
                let (rel, b) = tree[i];
                assert(tree_spec()[i as int].0 == rel);
                let p = IVec3 { x: a.x + rel.x, y: a.y + rel.y, z: a.z + rel.z };
                area_set_if_stronger(area, p, b);
                i = i + 1;
            }
        }
        k = k + 1;
    }
}

/// The invariant of `ChunkBlocks` makes it sparse.
proof fn lemma_sparse(cb: ChunkBlocks)
    requires
        cb.wf(),
    ensures
        cb.sparse(),
{
    let dom = cell_entries(cb.blocks).dom();
    let f = |k: u32| key_local(k as int);
    let target = Set::new(|l: IVec3| is_local(l) && cb.at(l) != cb.default_block());
    assert forall|l: IVec3| cb.stored().contains(l) implies target.contains(l) by {
        let k = choose|k: u32| dom.contains(k) && key_local(k as int) == l;
        lemma_key_local(k as int);
    }
    assert forall|l: IVec3| target.contains(l) implies cb.stored().contains(l) by {
        lemma_local_key(l);
        let k = local_key(l) as u32;
        assert(dom.contains(k));
        assert(f(k) == l);
    }
    assert(cb.stored() =~= target);
    assert forall|a: u32, b: u32| dom.contains(a) && dom.contains(b) && #[trigger] f(a) == #[trigger] f(b) implies a == b by {
        lemma_key_local(a as int);
        lemma_key_local(b as int);
    }
    assert(dom.map(f) =~= cb.stored());
    vstd::set_lib::lemma_map_size(dom, cb.stored(), f);
}

/// Chunks that agree on every key count every kind alike.
proof fn lemma_count_same(a: ChunkBlocks, b: ChunkBlocks, n: int, kind: Block)
    requires
        n <= CHUNK_VOLUME,
        forall|k: int| 0 <= k < CHUNK_VOLUME ==> #[trigger] a.cell(k) == b.cell(k),
    ensures
        a.count_below(n, kind) == b.count_below(n, kind),
    decreases n,
{
    if n > 0 {
        lemma_count_same(a, b, n - 1, kind);
        assert(a.cell(n - 1) == b.cell(n - 1));
    }
}

} // verus!
