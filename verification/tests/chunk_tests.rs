use std::collections::HashMap;

use voxel_world::block::Block;
use voxel_world::chunk_blocks::{
    build_tree, column_block, is_tree_site, plant_trees, ChunkBlocks, Column, CHUNK_VOLUME,
};
use voxel_world::chunks::{
    assert_is_local, chunk_neighbours_hexahedron, global_to_local, local_to_global, Chunk,
    ChunksIndex,
};
use voxel_world::spacial::{IVec3, Side};

fn chunk(x: i32, y: i32, z: i32) -> Chunk {
    Chunk::from(IVec3::new(x, y, z))
}

#[test]
fn global_local_roundtrip() {
    let (c, l) = global_to_local(IVec3::new(-1, 32, 65));
    assert_eq!(c, chunk(-1, 1, 2));
    assert_eq!(l, IVec3::new(31, 0, 1));
    assert_eq!(local_to_global(c, l), IVec3::new(-1, 32, 65));
    let (c, l) = global_to_local(IVec3::new(-32, -33, 0));
    assert_eq!(c, chunk(-1, -2, 0));
    assert_eq!(l, IVec3::new(0, 31, 0));
    assert_eq!(local_to_global(chunk(3, -2, 0), IVec3::new(5, 6, 7)), IVec3::new(101, -58, 7));
    assert_is_local(IVec3::new(31, 0, 31));
}

#[test]
fn hexahedron_has_26_distinct_neighbours() {
    let c = chunk(5, -5, 0);
    let n = chunk_neighbours_hexahedron(c);
    assert_eq!(n[0], chunk(4, -6, -1));
    assert_eq!(n[12], chunk(5, -5, -1));
    assert_eq!(n[13], chunk(5, -5, 1));
    assert_eq!(n[25], chunk(6, -4, 1));
    for i in 0..26 {
        assert_ne!(n[i], c);
        for j in 0..26 {
            if i != j {
                assert_ne!(n[i], n[j]);
            }
        }
    }
}

#[test]
fn chunk_neighbours_and_add() {
    let c = chunk(0, 0, 0);
    let n = c.neighbours();
    assert_eq!(*n.index(Side::YNeg), chunk(0, -1, 0));
    assert_eq!(*n.index(Side::XPos), chunk(1, 0, 0));
    assert_eq!(c.add(IVec3::new(2, 3, 4)), chunk(2, 3, 4));
}

#[test]
fn index_insert_get_locate() {
    let mut index = ChunksIndex::new();
    assert_eq!(index.get(chunk(0, 0, 0)), None);
    index.insert(chunk(0, 0, 0), 7);
    index.insert(chunk(-1, 0, 0), 8);
    assert_eq!(index.get(chunk(0, 0, 0)), Some(7));
    assert_eq!(index.get(chunk(-1, 0, 0)), Some(8));
    assert_eq!(index.get(chunk(0, 0, -1)), None);
    assert_eq!(index.global_to_local(IVec3::new(-1, 2, 3)), Some((8, IVec3::new(31, 2, 3))));
    assert_eq!(index.global_to_local(IVec3::new(0, 0, -1)), None);
    index.insert(chunk(0, 0, 0), 9);
    assert_eq!(index.get(chunk(0, 0, 0)), Some(9));
}

#[test]
fn index_reads_and_writes_blocks() {
    let mut index = ChunksIndex::new();
    index.insert(chunk(0, 0, 0), 1);
    index.insert(chunk(1, 0, 0), 2);
    let mut store: HashMap<u64, ChunkBlocks> = HashMap::new();
    store.insert(1, ChunkBlocks::air());
    let g = IVec3::new(3, 4, 5);
    assert_eq!(index.get_block(|e| store.get(&e), g), Some(Block::Air));
    index.set_block(|e| store.get_mut(&e), g, Block::Stone);
    assert_eq!(index.get_block(|e| store.get(&e), g), Some(Block::Stone));
    // indexed chunk without blocks, and a chunk that is not indexed
    assert_eq!(index.get_block(|e| store.get(&e), IVec3::new(40, 0, 0)), None);
    assert_eq!(index.get_block(|e| store.get(&e), IVec3::new(0, 40, 0)), None);
    index.set_block(|e| store.get_mut(&e), IVec3::new(40, 0, 0), Block::Stone);
    // weaker blocks do not replace stronger ones
    index.set_block_if_stronger(|e| store.get_mut(&e), g, Block::Air);
    assert_eq!(index.get_block(|e| store.get(&e), g), Some(Block::Stone));
    index.set_block_if_stronger(|e| store.get_mut(&e), g, Block::Log);
    assert_eq!(index.get_block(|e| store.get(&e), g), Some(Block::Log));
    index.set_block_if_stronger(|e| store.get_mut(&e), g, Block::Log);
    assert_eq!(index.get_block(|e| store.get(&e), g), Some(Block::Log));
}

#[test]
fn chunks_to_index_lists_the_missing_ones_in_order() {
    let mut index = ChunksIndex::new();
    index.insert(chunk(0, 0, 0), 1);
    index.insert(chunk(1, 1, 1), 2);
    let missing = index.chunks_to_index((0, 1), (0, 1), (0, 1));
    assert_eq!(
        missing,
        vec![
            chunk(0, 0, 1),
            chunk(0, 1, 0),
            chunk(0, 1, 1),
            chunk(1, 0, 0),
            chunk(1, 0, 1),
            chunk(1, 1, 0)
        ]
    );
    assert!(index.chunks_to_index((2, 1), (0, 0), (0, 0)).is_empty());
    assert_eq!(index.chunks_to_index((-1, -1), (5, 5), (0, 0)), vec![chunk(-1, 5, 0)]);
}

#[test]
fn chunks_to_remesh_after_a_placement() {
    let mut index = ChunksIndex::new();
    index.insert(chunk(0, 0, 0), 1);
    index.insert(chunk(-1, 0, 0), 2);
    index.insert(chunk(0, 1, 0), 3);
    let mut store: HashMap<u64, ChunkBlocks> = HashMap::new();
    store.insert(1, ChunkBlocks::air());
    let mut west = ChunkBlocks::air();
    west.set(IVec3::new(31, 0, 0), Block::Stone);
    store.insert(2, west);
    store.insert(3, ChunkBlocks::air());
    // a block at the corner: the west neighbour holds stone, the upper one air
    assert_eq!(index.chunks_to_remesh(|e| store.get(&e), IVec3::new(0, 0, 0)), vec![1, 2]);
    // inside the chunk: only the chunk itself
    assert_eq!(index.chunks_to_remesh(|e| store.get(&e), IVec3::new(5, 5, 5)), vec![1]);
    // outside the index: nothing
    assert!(index.chunks_to_remesh(|e| store.get(&e), IVec3::new(100, 0, 0)).is_empty());
}

#[test]
fn chunk_blocks_set_get_default() {
    let mut b = ChunkBlocks::air();
    let l = IVec3::new(1, 2, 3);
    assert_eq!(b.get(l), Block::Air);
    b.set(l, Block::Sand);
    assert_eq!(b.get(l), Block::Sand);
    assert_eq!(b.get(IVec3::new(3, 2, 1)), Block::Air);
    b.set_default(Block::Water);
    assert_eq!(b.get(l), Block::Sand);
    assert_eq!(b.get(IVec3::new(3, 2, 1)), Block::Air);
    // outside the chunk the default holds
    assert_eq!(b.get(IVec3::new(32, 0, 0)), Block::Water);
    b.set(l, Block::Water);
    assert_eq!(b.get(l), Block::Water);
    b.select_best_default();
    assert_eq!(b.get(IVec3::new(-1, 0, 0)), Block::Air);
    assert_eq!(b.get(l), Block::Water);
}

#[test]
fn columns_fill_a_chunk() {
    let column = Column { stone_top: 3, sediment_top: 5, grassy: true };
    assert_eq!(column_block(2, column), Block::Stone);
    assert_eq!(column_block(3, column), Block::Grass);
    assert_eq!(column_block(4, column), Block::Grass);
    assert_eq!(column_block(5, column), Block::Air);
    let sea = Column { stone_top: -10, sediment_top: -8, grassy: false };
    assert_eq!(column_block(-9, sea), Block::Sand);
    assert_eq!(column_block(-1, sea), Block::Water);
    assert_eq!(column_block(0, sea), Block::Air);

    let columns = vec![column; 1024];
    let blocks = ChunkBlocks::new(chunk(0, 0, 0), &columns);
    assert_eq!(blocks.get(IVec3::new(0, 0, 0)), Block::Stone);
    assert_eq!(blocks.get(IVec3::new(7, 3, 9)), Block::Grass);
    assert_eq!(blocks.get(IVec3::new(31, 31, 31)), Block::Air);
    // mostly air: air becomes the default, so outside positions read as air
    assert_eq!(blocks.get(IVec3::new(-1, 0, 0)), Block::Air);
    let below = ChunkBlocks::new(chunk(0, -1, 0), &columns);
    assert_eq!(below.get(IVec3::new(0, 31, 0)), Block::Stone);
    assert_eq!(below.get(IVec3::new(0, 40, 0)), Block::Stone);
}

#[test]
fn trees() {
    let tree = build_tree();
    assert_eq!(tree.len(), 22);
    assert_eq!(tree[0], (IVec3::new(0, 0, 0), Block::Log));
    assert_eq!(tree[3], (IVec3::new(0, 3, 0), Block::Log));
    assert_eq!(tree[4], (IVec3::new(1, 3, 0), Block::Leaves));
    assert_eq!(tree[21], (IVec3::new(0, 5, 0), Block::Leaves));
    assert!(is_tree_site(Block::Grass, Block::Air));
    assert!(!is_tree_site(Block::Grass, Block::Water));
    assert!(!is_tree_site(Block::Sand, Block::Air));
}

fn key(x: i32, y: i32, z: i32) -> usize {
    (x * 1024 + y * 32 + z) as usize
}

#[test]
fn trees_grow_on_lucky_grass_in_scan_order() {
    let mut area: Vec<ChunkBlocks> = (0..27).map(|_| ChunkBlocks::air()).collect();
    let mut lucky = vec![false; CHUNK_VOLUME as usize];
    // a tree at the +x, +z corner spills into the neighbouring chunks
    area[13].set(IVec3::new(31, 10, 31), Block::Grass);
    lucky[key(31, 10, 31)] = true;
    // a tree at (10, 10, 10), then a site that its leaves cover
    area[13].set(IVec3::new(10, 10, 10), Block::Grass);
    lucky[key(10, 10, 10)] = true;
    area[13].set(IVec3::new(11, 12, 10), Block::Grass);
    lucky[key(11, 12, 10)] = true;
    area[13].set(IVec3::new(9, 13, 10), Block::Stone);
    // grass that is not lucky
    area[13].set(IVec3::new(5, 5, 5), Block::Grass);
    // lucky sand
    area[13].set(IVec3::new(20, 5, 5), Block::Sand);
    lucky[key(20, 5, 5)] = true;

    plant_trees(&mut area, &lucky);

    assert_eq!(area.len(), 27);
    let mid = &area[13];
    for y in 10..14 {
        assert_eq!(mid.get(IVec3::new(31, y, 31)), Block::Log);
    }
    assert_eq!(mid.get(IVec3::new(31, 15, 31)), Block::Leaves);
    assert_eq!(area[22].get(IVec3::new(0, 13, 31)), Block::Leaves);
    assert_eq!(area[23].get(IVec3::new(0, 14, 0)), Block::Leaves);
    assert_eq!(area[14].get(IVec3::new(30, 13, 0)), Block::Leaves);
    assert_eq!(mid.get(IVec3::new(10, 10, 10)), Block::Log);
    assert_eq!(mid.get(IVec3::new(11, 13, 10)), Block::Leaves);
    // leaves outrank stone
    assert_eq!(mid.get(IVec3::new(9, 13, 10)), Block::Leaves);
    // the covered site grew nothing
    assert_eq!(mid.get(IVec3::new(11, 12, 10)), Block::Grass);
    assert_eq!(mid.get(IVec3::new(11, 17, 10)), Block::Air);
    assert_eq!(mid.get(IVec3::new(5, 5, 5)), Block::Grass);
    assert_eq!(mid.get(IVec3::new(5, 6, 5)), Block::Air);
    assert_eq!(mid.get(IVec3::new(20, 5, 5)), Block::Sand);
    assert_eq!(mid.get(IVec3::new(20, 6, 5)), Block::Air);
    assert_eq!(area[0].get(IVec3::new(31, 31, 31)), Block::Air);
}
