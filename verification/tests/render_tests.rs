use std::collections::HashMap;

use voxel_world::block::{Block, TEXTURE_GRASS, TEXTURE_STONE};
use voxel_world::chunk_blocks::ChunkBlocks;
use voxel_world::chunk_render::{chunk_build_mesh, make_cube_mesh2, Quad};
use voxel_world::chunks::{Chunk, ChunksIndex};
use voxel_world::spacial::{IVec3, Side, Sides};

#[test]
fn cube_faces_hidden_by_opaque_neighbours() {
    let mut sides = Sides::all(Block::Stone);
    sides.y_pos = Block::Air;
    let quads = make_cube_mesh2(IVec3::new(2, 3, 4), Block::Grass, &sides);
    assert_eq!(quads.len(), 1);
    match &quads[0] {
        Quad::Regular { positions, normal, texture_uv, texture_index } => {
            assert_eq!(*positions, [[2, 4, 4], [2, 4, 5], [3, 4, 5], [3, 4, 4]]);
            assert_eq!(*normal, [0, 1, 0]);
            assert_eq!(*texture_uv, [[0, 0], [1, 0], [1, 1], [0, 1]]);
            assert_eq!(*texture_index, TEXTURE_GRASS);
        }
        Quad::Water { .. } => panic!("grass is not water"),
    }
    assert_eq!(make_cube_mesh2(IVec3::new(0, 0, 0), Block::Air, &Sides::all(Block::Air)).len(), 0);
    assert_eq!(make_cube_mesh2(IVec3::new(0, 0, 0), Block::Stone, &Sides::all(Block::Air)).len(), 6);
}

#[test]
fn water_faces_hide_against_water_and_opaque_blocks() {
    let mut sides = Sides::all(Block::Water);
    sides.x_pos = Block::Air;
    sides.x_neg = Block::Stone;
    sides.z_neg = Block::Water;
    let quads = make_cube_mesh2(IVec3::new(0, 0, 0), Block::Water, &sides);
    assert_eq!(quads.len(), 1);
    match &quads[0] {
        Quad::Water { normal, .. } => assert_eq!(*normal, [1, 0, 0]),
        Quad::Regular { .. } => panic!("water face expected"),
    }
}

#[test]
fn grass_side_texture_is_turned() {
    let quads = make_cube_mesh2(IVec3::new(0, 0, 0), Block::Grass, &Sides::all(Block::Air));
    assert_eq!(quads.len(), 6);
    match &quads[0] {
        Quad::Regular { texture_uv, .. } => {
            assert_eq!(*texture_uv, [[1, 0], [1, 1], [0, 1], [0, 0]]);
        }
        Quad::Water { .. } => panic!(),
    }
}

#[test]
fn mesh_of_a_single_block() {
    let mut index = ChunksIndex::new();
    index.insert(Chunk::from(IVec3::new(0, 0, 0)), 1);
    let mut blocks = ChunkBlocks::air();
    blocks.set(IVec3::new(0, 0, 0), Block::Stone);
    blocks.set(IVec3::new(5, 5, 5), Block::Water);
    let mut store: HashMap<u64, ChunkBlocks> = HashMap::new();
    store.insert(1, blocks);
    let (regular, water) = chunk_build_mesh(&index, |e| store.get(&e), Chunk::from(IVec3::new(0, 0, 0)));
    let regular = regular.unwrap();
    assert_eq!(regular.positions.len(), 24);
    assert_eq!(regular.indices.len(), 36);
    assert_eq!(&regular.indices[..12], &[0, 1, 2, 2, 3, 0, 4, 5, 6, 6, 7, 4]);
    assert_eq!(regular.positions[0], [1, 0, 0]);
    assert_eq!(regular.normals[4], [-1, 0, 0]);
    assert!(regular.texture_indices.iter().all(|&t| t == TEXTURE_STONE));
    let water = water.unwrap();
    assert_eq!(water.positions.len(), 24);
    assert!(water.texture_indices.iter().all(|&t| t == 0));
    assert_eq!(water.positions[0], [6, 5, 5]);

    let mut empty_store: HashMap<u64, ChunkBlocks> = HashMap::new();
    empty_store.insert(1, ChunkBlocks::air());
    let (regular, water) = chunk_build_mesh(&index, |e| empty_store.get(&e), Chunk::from(IVec3::new(0, 0, 0)));
    assert!(regular.is_none());
    assert!(water.is_none());
    let _ = Side::XPos;
}

#[test]
fn cube_anywhere_in_the_world() {
    let mut sides = Sides::all(Block::Stone);
    sides.y_pos = Block::Air;
    let quads = make_cube_mesh2(IVec3::new(-100, 70, 1000), Block::Stone, &sides);
    assert_eq!(quads.len(), 1);
    match &quads[0] {
        Quad::Regular { positions, normal, .. } => {
            assert_eq!(*positions, [[-100, 71, 1000], [-100, 71, 1001], [-99, 71, 1001], [-99, 71, 1000]]);
            assert_eq!(*normal, [0, 1, 0]);
        }
        Quad::Water { .. } => panic!("stone is not water"),
    }
}
