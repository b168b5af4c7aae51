//! The fifty block types of the classic protocol and their one-byte identifiers.

use vstd::prelude::*;

verus! {

/// Number of block types; valid identifiers are `0..BLOCK_COUNT`.
pub const BLOCK_COUNT: u8 = 50;

/// A voxel type. The position of a variant in this list is its identifier
/// on the wire and on disk, starting with `Air` at zero.
#[derive(Debug, Clone, Copy, PartialEq, Eq, Structural)]
pub enum Block {
    Air,
    Stone,
    GrassBlock,
    Dirt,
    Cobblestone,
    Planks,
    Sapling,
    Bedrock,
    FlowingWater,
    StationaryWater,
    FlowingLava,
    StationaryLava,
    Sand,
    Gravel,
    GoldOre,
    IronOre,
    CoalOre,
    Woord,
    Leaves,
    Sponge,
    Glass,
    RedCloth,
    OrangeCloth,
    YellowCloth,
    ChartreuseCloth,
    GreenCloth,
    SpringGreenCloth,
    CyanCloth,
    CapriCloth,
    UltramarineCloth,
    PurpleCloth,
    VioletCloth,
    MagentaCloth,
    RoseCloth,
    DarkGreyCloth,
    LightGreyCloth,
    WhiteCloth,
    Flower,
    Rose,
    BrownMushroom,
    RedMushroom,
    BlockOfGold,
    BlockOfIron,
    DoubleSlab,
    Slab,
    Bricks,
    TNT,
    Bookshelf,
    MossyCobbleStone,
    Obsidian,
}

impl Block {
    /// The identifier of this block type, in `0..50`.
    pub open spec fn spec_id(self) -> u8 {
        match self {
            Block::Air => 0u8,
            Block::Stone => 1u8,
            Block::GrassBlock => 2u8,
            Block::Dirt => 3u8,
            Block::Cobblestone => 4u8,
            Block::Planks => 5u8,
            Block::Sapling => 6u8,
            Block::Bedrock => 7u8,
            Block::FlowingWater => 8u8,
            Block::StationaryWater => 9u8,
            Block::FlowingLava => 10u8,
            Block::StationaryLava => 11u8,
            Block::Sand => 12u8,
            Block::Gravel => 13u8,
            Block::GoldOre => 14u8,
            Block::IronOre => 15u8,
            Block::CoalOre => 16u8,
            Block::Woord => 17u8,
            Block::Leaves => 18u8,
            Block::Sponge => 19u8,
            Block::Glass => 20u8,
            Block::RedCloth => 21u8,
            Block::OrangeCloth => 22u8,
            Block::YellowCloth => 23u8,
            Block::ChartreuseCloth => 24u8,
            Block::GreenCloth => 25u8,
            Block::SpringGreenCloth => 26u8,
            Block::CyanCloth => 27u8,
            Block::CapriCloth => 28u8,
            Block::UltramarineCloth => 29u8,
            Block::PurpleCloth => 30u8,
            Block::VioletCloth => 31u8,
            Block::MagentaCloth => 32u8,
            Block::RoseCloth => 33u8,
            Block::DarkGreyCloth => 34u8,
            Block::LightGreyCloth => 35u8,
            Block::WhiteCloth => 36u8,
            Block::Flower => 37u8,
            Block::Rose => 38u8,
            Block::BrownMushroom => 39u8,
            Block::RedMushroom => 40u8,
            Block::BlockOfGold => 41u8,
            Block::BlockOfIron => 42u8,
            Block::DoubleSlab => 43u8,
            Block::Slab => 44u8,
            Block::Bricks => 45u8,
            Block::TNT => 46u8,
            Block::Bookshelf => 47u8,
            Block::MossyCobbleStone => 48u8,
            Block::Obsidian => 49u8,
        }
    }

    /// The block type with identifier `id`, if there is one.
    pub open spec fn spec_from_u8(id: u8) -> Option<Block> {
        match id {
            0u8 => Some(Block::Air),
            1u8 => Some(Block::Stone),
            2u8 => Some(Block::GrassBlock),
            3u8 => Some(Block::Dirt),
            4u8 => Some(Block::Cobblestone),
            5u8 => Some(Block::Planks),
            6u8 => Some(Block::Sapling),
            7u8 => Some(Block::Bedrock),
            8u8 => Some(Block::FlowingWater),
            9u8 => Some(Block::StationaryWater),
            10u8 => Some(Block::FlowingLava),
            11u8 => Some(Block::StationaryLava),
            12u8 => Some(Block::Sand),
            13u8 => Some(Block::Gravel),
            14u8 => Some(Block::GoldOre),
            15u8 => Some(Block::IronOre),
            16u8 => Some(Block::CoalOre),
            17u8 => Some(Block::Woord),
            18u8 => Some(Block::Leaves),
            19u8 => Some(Block::Sponge),
            20u8 => Some(Block::Glass),
            21u8 => Some(Block::RedCloth),
            22u8 => Some(Block::OrangeCloth),
            23u8 => Some(Block::YellowCloth),
            24u8 => Some(Block::ChartreuseCloth),
            25u8 => Some(Block::GreenCloth),
            26u8 => Some(Block::SpringGreenCloth),
            27u8 => Some(Block::CyanCloth),
            28u8 => Some(Block::CapriCloth),
            29u8 => Some(Block::UltramarineCloth),
            30u8 => Some(Block::PurpleCloth),
            31u8 => Some(Block::VioletCloth),
            32u8 => Some(Block::MagentaCloth),
            33u8 => Some(Block::RoseCloth),
            34u8 => Some(Block::DarkGreyCloth),
            35u8 => Some(Block::LightGreyCloth),
            36u8 => Some(Block::WhiteCloth),
            37u8 => Some(Block::Flower),
            38u8 => Some(Block::Rose),
            39u8 => Some(Block::BrownMushroom),
            40u8 => Some(Block::RedMushroom),
            41u8 => Some(Block::BlockOfGold),
            42u8 => Some(Block::BlockOfIron),
            43u8 => Some(Block::DoubleSlab),
            44u8 => Some(Block::Slab),
            45u8 => Some(Block::Bricks),
            46u8 => Some(Block::TNT),
            47u8 => Some(Block::Bookshelf),
            48u8 => Some(Block::MossyCobbleStone),
            49u8 => Some(Block::Obsidian),
            _ => None,
        }
    }

    /// The identifier stored for this block on the wire and on disk.
    #[verifier::when_used_as_spec(spec_id)]
    pub fn id(self) -> (id: u8)
        ensures
            id == self.spec_id(),
            id < BLOCK_COUNT,
    {
        match self {
            Block::Air => 0u8,
            Block::Stone => 1u8,
            Block::GrassBlock => 2u8,
            Block::Dirt => 3u8,
            Block::Cobblestone => 4u8,
            Block::Planks => 5u8,
            Block::Sapling => 6u8,
            Block::Bedrock => 7u8,
            Block::FlowingWater => 8u8,
            Block::StationaryWater => 9u8,
            Block::FlowingLava => 10u8,
            Block::StationaryLava => 11u8,
            Block::Sand => 12u8,
            Block::Gravel => 13u8,
            Block::GoldOre => 14u8,
            Block::IronOre => 15u8,
            Block::CoalOre => 16u8,
            Block::Woord => 17u8,
            Block::Leaves => 18u8,
            Block::Sponge => 19u8,
            Block::Glass => 20u8,
            Block::RedCloth => 21u8,
            Block::OrangeCloth => 22u8,
            Block::YellowCloth => 23u8,
            Block::ChartreuseCloth => 24u8,
            Block::GreenCloth => 25u8,
            Block::SpringGreenCloth => 26u8,
            Block::CyanCloth => 27u8,
            Block::CapriCloth => 28u8,
            Block::UltramarineCloth => 29u8,
            Block::PurpleCloth => 30u8,
            Block::VioletCloth => 31u8,
            Block::MagentaCloth => 32u8,
            Block::RoseCloth => 33u8,
            Block::DarkGreyCloth => 34u8,
            Block::LightGreyCloth => 35u8,
            Block::WhiteCloth => 36u8,
            Block::Flower => 37u8,
            Block::Rose => 38u8,
            Block::BrownMushroom => 39u8,
            Block::RedMushroom => 40u8,
            Block::BlockOfGold => 41u8,
            Block::BlockOfIron => 42u8,
            Block::DoubleSlab => 43u8,
            Block::Slab => 44u8,
            Block::Bricks => 45u8,
            Block::TNT => 46u8,
            Block::Bookshelf => 47u8,
            Block::MossyCobbleStone => 48u8,
            Block::Obsidian => 49u8,
        }
    }

    /// Looks a block type up by identifier; `None` for any byte of 50 and above.
    #[verifier::when_used_as_spec(spec_from_u8)]
    pub fn from_u8(id: u8) -> (block: Option<Block>)
        ensures
            block == Block::spec_from_u8(id),
            block.is_some() <==> id < BLOCK_COUNT,
            block.is_some() ==> block.unwrap().spec_id() == id,
    {
        match id {
            0u8 => Some(Block::Air),
            1u8 => Some(Block::Stone),
            2u8 => Some(Block::GrassBlock),
            3u8 => Some(Block::Dirt),
            4u8 => Some(Block::Cobblestone),
            5u8 => Some(Block::Planks),
            6u8 => Some(Block::Sapling),
            7u8 => Some(Block::Bedrock),
            8u8 => Some(Block::FlowingWater),
            9u8 => Some(Block::StationaryWater),
            10u8 => Some(Block::FlowingLava),
            11u8 => Some(Block::StationaryLava),
            12u8 => Some(Block::Sand),
            13u8 => Some(Block::Gravel),
            14u8 => Some(Block::GoldOre),
            15u8 => Some(Block::IronOre),
            16u8 => Some(Block::CoalOre),
            17u8 => Some(Block::Woord),
            18u8 => Some(Block::Leaves),
            19u8 => Some(Block::Sponge),
            20u8 => Some(Block::Glass),
            21u8 => Some(Block::RedCloth),
            22u8 => Some(Block::OrangeCloth),
            23u8 => Some(Block::YellowCloth),
            24u8 => Some(Block::ChartreuseCloth),
            25u8 => Some(Block::GreenCloth),
            26u8 => Some(Block::SpringGreenCloth),
            27u8 => Some(Block::CyanCloth),
            28u8 => Some(Block::CapriCloth),
            29u8 => Some(Block::UltramarineCloth),
            30u8 => Some(Block::PurpleCloth),
            31u8 => Some(Block::VioletCloth),
            32u8 => Some(Block::MagentaCloth),
            33u8 => Some(Block::RoseCloth),
            34u8 => Some(Block::DarkGreyCloth),
            35u8 => Some(Block::LightGreyCloth),
            36u8 => Some(Block::WhiteCloth),
            37u8 => Some(Block::Flower),
            38u8 => Some(Block::Rose),
            39u8 => Some(Block::BrownMushroom),
            40u8 => Some(Block::RedMushroom),
            41u8 => Some(Block::BlockOfGold),
            42u8 => Some(Block::BlockOfIron),
            43u8 => Some(Block::DoubleSlab),
            44u8 => Some(Block::Slab),
            45u8 => Some(Block::Bricks),
            46u8 => Some(Block::TNT),
            47u8 => Some(Block::Bookshelf),
            48u8 => Some(Block::MossyCobbleStone),
            49u8 => Some(Block::Obsidian),
            _ => None,
        }
    }

    /// Every block's identifier maps back to the block.
    pub proof fn lemma_id_round_trip(self)
        ensures
            self.spec_id() < BLOCK_COUNT,
            Block::spec_from_u8(self.spec_id()) == Some(self),
    {
    }

    /// Every identifier below 50 names a block with that identifier, and no other byte names one.
    pub proof fn lemma_from_u8_round_trip(id: u8)
        ensures
            id < BLOCK_COUNT <==> Block::spec_from_u8(id).is_some(),
            id < BLOCK_COUNT ==> Block::spec_from_u8(id).unwrap().spec_id() == id,
    {
    }
}

} // verus!
