//! Block kinds and their static properties.
use vstd::prelude::*;

use crate::spacial::{Side, Sides, Symetry2};

verus! {

/// The kind of a voxel. The declaration order is the order of strength used
/// when structures are laid over terrain.
#[derive(Clone, Copy, Debug, PartialEq, Eq, Structural, Hash)]
pub enum Block {
    Air,
    Stone,
    Grass,
    Sand,
    Water,
    Log,
    Leaves,
}

/// How much a block hides the faces of its neighbours.
#[derive(Clone, Copy, Debug, PartialEq, Eq, Structural, Hash)]
pub enum Oclusion {
    Open,
    Full,
}

pub const TEXTURE_STONE: u32 = 0;
pub const TEXTURE_DIRT: u32 = 1;
pub const TEXTURE_GRASS_SIDE: u32 = 2;
pub const TEXTURE_GRASS: u32 = 3;
pub const TEXTURE_SAND: u32 = 4;
pub const TEXTURE_LOG_SIDE: u32 = 5;
pub const TEXTURE_LEAVES: u32 = 6;

/// The number of block kinds.
pub const BLOCK_KINDS: usize = 7;

impl Block {
    /// The position of the kind in the declaration order.
    #[verifier::allow_in_spec]
    pub fn rank(self) -> u8
        returns
            (match self {
                Block::Air => 0u8,
                Block::Stone => 1u8,
                Block::Grass => 2u8,
                Block::Sand => 3u8,
                Block::Water => 4u8,
                Block::Log => 5u8,
                Block::Leaves => 6u8,
            }),
    {
        match self {
            Block::Air => 0,
            Block::Stone => 1,
            Block::Grass => 2,
            Block::Sand => 3,
            Block::Water => 4,
            Block::Log => 5,
            Block::Leaves => 6,
        }
    }

    /// The kind at a position of the declaration order.
    #[verifier::allow_in_spec]
    pub fn from_rank(rank: u8) -> Block
        requires
            rank < 7,
        returns
            (match rank {
                0u8 => Block::Air,
                1u8 => Block::Stone,
                2u8 => Block::Grass,
                3u8 => Block::Sand,
                4u8 => Block::Water,
                5u8 => Block::Log,
                _ => Block::Leaves,
            }),
    {
        match rank {
            0 => Block::Air,
            1 => Block::Stone,
            2 => Block::Grass,
            3 => Block::Sand,
            4 => Block::Water,
            5 => Block::Log,
            _ => Block::Leaves,
        }
    }

    /// Whether `self` comes before `other` in the declaration order.
    #[verifier::allow_in_spec]
    pub fn weaker_than(self, other: Block) -> bool
        returns
            self.rank() < other.rank(),
    {
        self.rank() < other.rank()
    }

    #[verifier::allow_in_spec]
    pub fn oclusion(self) -> Oclusion
        returns
            (match self {
                Block::Air | Block::Water => Oclusion::Open,
                Block::Stone | Block::Sand | Block::Grass | Block::Log | Block::Leaves => Oclusion::Full,
            }),
    {
        match self {
            Block::Air | Block::Water => Oclusion::Open,
            Block::Stone | Block::Sand | Block::Grass | Block::Log | Block::Leaves => Oclusion::Full,
        }
    }

    #[verifier::allow_in_spec]
    pub fn collides(self) -> bool
        returns
            (match self {
                Block::Air | Block::Water => false,
                Block::Stone | Block::Sand | Block::Grass | Block::Log | Block::Leaves => true,
            }),
    {
        match self {
            Block::Air | Block::Water => false,
            Block::Stone | Block::Sand | Block::Grass | Block::Log | Block::Leaves => true,
        }
    }

    /// The texture orientation and atlas index of each face, for the blocks
    /// drawn as opaque cubes.
    pub open spec fn texture_of(self, side: Side) -> Option<(Symetry2, u32)> {
        match self {
            Block::Air | Block::Water => None,
            Block::Stone => Some((Symetry2::ppp(), TEXTURE_STONE)),
            Block::Sand => Some((Symetry2::ppp(), TEXTURE_SAND)),
            Block::Grass => Some(
                match side {
                    Side::XPos => (Symetry2::nnp(), TEXTURE_GRASS_SIDE),
                    Side::XNeg => (Symetry2::ppp(), TEXTURE_GRASS_SIDE),
                    Side::YPos => (Symetry2::ppp(), TEXTURE_GRASS),
                    Side::YNeg => (Symetry2::ppp(), TEXTURE_DIRT),
                    Side::ZPos => (Symetry2::ppp(), TEXTURE_GRASS_SIDE),
                    Side::ZNeg => (Symetry2::nnp(), TEXTURE_GRASS_SIDE),
                },
            ),
            Block::Log => Some((Symetry2::ppp(), TEXTURE_LOG_SIDE)),
            Block::Leaves => Some((Symetry2::ppp(), TEXTURE_LEAVES)),
        }
    }

    pub fn regular_textures(self) -> (r: Option<Sides<(Symetry2, u32)>>)
        ensures
            r is None <==> self.texture_of(Side::XPos) is None,
            r matches Some(t) ==> forall|side: Side| Some(#[trigger] t.at(side)) == self.texture_of(side),
    {
        let r = match self {
            Block::Air | Block::Water => None,
            Block::Stone => Some(Sides::all((Symetry2::ppp(), TEXTURE_STONE))),
            Block::Sand => Some(Sides::all((Symetry2::ppp(), TEXTURE_SAND))),
            Block::Grass => Some(
                Sides {
                    x_pos: (Symetry2::nnp(), TEXTURE_GRASS_SIDE),
                    x_neg: (Symetry2::ppp(), TEXTURE_GRASS_SIDE),
                    y_pos: (Symetry2::ppp(), TEXTURE_GRASS),
                    y_neg: (Symetry2::ppp(), TEXTURE_DIRT),
                    z_pos: (Symetry2::ppp(), TEXTURE_GRASS_SIDE),
                    z_neg: (Symetry2::nnp(), TEXTURE_GRASS_SIDE),
                },
            ),
            Block::Log => Some(Sides::all((Symetry2::ppp(), TEXTURE_LOG_SIDE))),
            Block::Leaves => Some(Sides::all((Symetry2::ppp(), TEXTURE_LEAVES))),
        };
        proof {
            if let Some(t) = r {
                assert forall|side: Side| Some(#[trigger] t.at(side)) == self.texture_of(side) by {
                    match side {
                        Side::XPos => {},
                        Side::XNeg => {},
                        Side::YPos => {},
                        Side::YNeg => {},
                        Side::ZPos => {},
                        Side::ZNeg => {},
                    }
                }
            }
        }
        r
    }
}

/// A block hides its neighbours' faces exactly when it collides.
pub proof fn lemma_collides_iff_full(block: Block)
    ensures
        block.collides() <==> block.oclusion() == Oclusion::Full,
{
}

/// A block is drawn as a textured cube exactly when it is solid.
pub proof fn lemma_textured_iff_full(block: Block, side: Side)
    ensures
        block.texture_of(side) is Some <==> block.oclusion() == Oclusion::Full,
{
}

/// The atlas index of the texture on `side` of `block`, if it is drawn as
/// an opaque cube.
pub open spec fn texture_index_of(block: Block, side: Side) -> Option<u32> {
    match block.texture_of(side) {
        Some((_, i)) => Some(i),
        None => None,
    }
}

/// Each opaque kind is drawn with textures of its own: stone, sand, logs and
/// leaves show one texture on every side, unturned; grass shows grass on
/// top, dirt below and its side texture around. No two kinds share a
/// texture, whatever their sides.
pub proof fn lemma_block_textures(a: Block, b: Block, s: Side, t: Side)
    ensures
        Block::Stone.texture_of(s) == Some((Symetry2::ppp(), TEXTURE_STONE)),
        Block::Sand.texture_of(s) == Some((Symetry2::ppp(), TEXTURE_SAND)),
        Block::Log.texture_of(s) == Some((Symetry2::ppp(), TEXTURE_LOG_SIDE)),
        Block::Leaves.texture_of(s) == Some((Symetry2::ppp(), TEXTURE_LEAVES)),
        s == Side::YPos ==> Block::Grass.texture_of(s) == Some((Symetry2::ppp(), TEXTURE_GRASS)),
        s == Side::YNeg ==> Block::Grass.texture_of(s) == Some((Symetry2::ppp(), TEXTURE_DIRT)),
        s != Side::YPos && s != Side::YNeg ==> texture_index_of(Block::Grass, s) == Some(
            TEXTURE_GRASS_SIDE,
        ),
        a != b && texture_index_of(a, s) is Some && texture_index_of(b, t) is Some
            ==> texture_index_of(a, s) != texture_index_of(b, t),
{
}

/// `rank` and `from_rank` are inverse to each other.
pub proof fn lemma_rank_roundtrip(block: Block, rank: u8)
    ensures
        Block::from_rank(block.rank()) == block,
        rank < 7 ==> Block::from_rank(rank).rank() == rank,
{
}

} // verus!
