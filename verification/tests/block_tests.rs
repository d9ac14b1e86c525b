use voxel_world::block::{Block, Oclusion, TEXTURE_DIRT, TEXTURE_GRASS, TEXTURE_GRASS_SIDE, TEXTURE_STONE};
use voxel_world::spacial::{Side, Symetry2};

const ALL_BLOCKS: [Block; 7] = [
    Block::Air,
    Block::Stone,
    Block::Grass,
    Block::Sand,
    Block::Water,
    Block::Log,
    Block::Leaves,
];

#[test]
fn oclusion_and_collision() {
    assert_eq!(Block::Air.oclusion(), Oclusion::Open);
    assert_eq!(Block::Water.oclusion(), Oclusion::Open);
    assert_eq!(Block::Stone.oclusion(), Oclusion::Full);
    assert!(!Block::Air.collides());
    assert!(!Block::Water.collides());
    assert!(Block::Sand.collides());
    for b in ALL_BLOCKS {
        assert_eq!(b.collides(), b.oclusion() == Oclusion::Full);
    }
}

#[test]
fn textures_of_blocks() {
    assert!(Block::Air.regular_textures().is_none());
    assert!(Block::Water.regular_textures().is_none());
    let stone = Block::Stone.regular_textures().unwrap();
    for side in Side::all_sides() {
        assert_eq!(*stone.index(side), (Symetry2::ppp(), TEXTURE_STONE));
    }
    let grass = Block::Grass.regular_textures().unwrap();
    assert_eq!(*grass.index(Side::YPos), (Symetry2::ppp(), TEXTURE_GRASS));
    assert_eq!(*grass.index(Side::YNeg), (Symetry2::ppp(), TEXTURE_DIRT));
    assert_eq!(*grass.index(Side::XPos), (Symetry2::nnp(), TEXTURE_GRASS_SIDE));
    assert_eq!(*grass.index(Side::ZNeg), (Symetry2::nnp(), TEXTURE_GRASS_SIDE));
    assert_eq!(*grass.index(Side::ZPos), (Symetry2::ppp(), TEXTURE_GRASS_SIDE));
}

#[test]
fn strength_follows_declaration_order() {
    for (i, b) in ALL_BLOCKS.iter().enumerate() {
        assert_eq!(b.rank() as usize, i);
        assert_eq!(Block::from_rank(i as u8), *b);
    }
    assert!(Block::Air.weaker_than(Block::Stone));
    assert!(Block::Log.weaker_than(Block::Leaves));
    assert!(!Block::Leaves.weaker_than(Block::Log));
    assert!(!Block::Sand.weaker_than(Block::Sand));
}
