use vstd::prelude::*;

verus! {

/// Kinds of underground environment.
#[derive(Clone, Copy, Debug, PartialEq, Eq, Hash, Structural)]
pub enum UndergroundType {
    Mine,
    Cave,
    DarkAdventure,
}

/// Kinds of map tile.
#[derive(Clone, Copy, Debug, PartialEq, Eq, Hash, Structural)]
pub enum TileType {
    Wall,
    Floor,
    MineWall,
    MineFloor,
    CaveWall,
    CaveFloor,
    IronOre,
    CopperOre,
    SonoriteOre,
    GlimmerstoneOre,
    WhisperingIronOre,
    Stairs,
    StairsUp,
    StairsDown,
    AncientMachinery,
    GasPocket,
    UnstableWall,
}

/// Index of the tile's sprite in the tile set: tiles numbered 0 to 16 in
/// declaration order.
pub open spec fn texture_of(t: TileType) -> u32 {
    match t {
        TileType::Wall => 0,
        TileType::Floor => 1,
        TileType::MineWall => 2,
        TileType::MineFloor => 3,
        TileType::CaveWall => 4,
        TileType::CaveFloor => 5,
        TileType::IronOre => 6,
        TileType::CopperOre => 7,
        TileType::SonoriteOre => 8,
        TileType::GlimmerstoneOre => 9,
        TileType::WhisperingIronOre => 10,
        TileType::Stairs => 11,
        TileType::StairsUp => 12,
        TileType::StairsDown => 13,
        TileType::AncientMachinery => 14,
        TileType::GasPocket => 15,
        TileType::UnstableWall => 16,
    }
}

/// Floors and stairs can be walked on.
pub open spec fn walkable(t: TileType) -> bool {
    t == TileType::Floor || t == TileType::MineFloor || t == TileType::CaveFloor || t
        == TileType::Stairs || t == TileType::StairsUp || t == TileType::StairsDown
}

/// Every floor and every stairs tile can be walked on; walls, ores, ancient
/// machinery, gas pockets and unstable walls cannot, and no tile is both
/// walkable and mineable.
pub proof fn lemma_walkable_tiles()
    ensures
        walkable(TileType::Floor),
        walkable(TileType::MineFloor),
        walkable(TileType::CaveFloor),
        walkable(TileType::Stairs),
        walkable(TileType::StairsUp),
        walkable(TileType::StairsDown),
        !walkable(TileType::Wall),
        !walkable(TileType::MineWall),
        !walkable(TileType::CaveWall),
        !walkable(TileType::IronOre),
        !walkable(TileType::CopperOre),
        !walkable(TileType::SonoriteOre),
        !walkable(TileType::GlimmerstoneOre),
        !walkable(TileType::WhisperingIronOre),
        !walkable(TileType::AncientMachinery),
        !walkable(TileType::GasPocket),
        !walkable(TileType::UnstableWall),
        forall|t: TileType| !(#[trigger] walkable(t) && mineable(t)),
{
}

/// Walls, ores and unstable walls can be mined.
pub open spec fn mineable(t: TileType) -> bool {
    t == TileType::Wall || t == TileType::MineWall || t == TileType::CaveWall || ore(t) || t
        == TileType::UnstableWall
}

/// The five ore kinds.
pub open spec fn ore(t: TileType) -> bool {
    t == TileType::IronOre || t == TileType::CopperOre || t == TileType::SonoriteOre || t
        == TileType::GlimmerstoneOre || t == TileType::WhisperingIronOre
}

/// Plain walls of any kind, as counted by the cave smoothing.
pub open spec fn plain_wall(t: TileType) -> bool {
    t == TileType::CaveWall || t == TileType::MineWall || t == TileType::Wall
}

impl TileType {
    pub fn texture_index(self) -> (r: u32)
        ensures
            r == texture_of(self),
    {
        match self {
            TileType::Wall => 0,
            TileType::Floor => 1,
            TileType::MineWall => 2,
            TileType::MineFloor => 3,
            TileType::CaveWall => 4,
            TileType::CaveFloor => 5,
            TileType::IronOre => 6,
            TileType::CopperOre => 7,
            TileType::SonoriteOre => 8,
            TileType::GlimmerstoneOre => 9,
            TileType::WhisperingIronOre => 10,
            TileType::Stairs => 11,
            TileType::StairsUp => 12,
            TileType::StairsDown => 13,
            TileType::AncientMachinery => 14,
            TileType::GasPocket => 15,
            TileType::UnstableWall => 16,
        }
    }

    /// Whether the tile can be walked on.
    pub fn is_walkable(self) -> (b: bool)
        ensures
            b == walkable(self),
    {
        match self {
            TileType::Floor | TileType::MineFloor | TileType::CaveFloor | TileType::Stairs
            | TileType::StairsUp | TileType::StairsDown => true,
            _ => false,
        }
    }

    /// Whether the tile can be mined.
    pub fn is_mineable(self) -> (b: bool)
        ensures
            b == mineable(self),
    {
        match self {
            TileType::Wall | TileType::MineWall | TileType::CaveWall | TileType::IronOre
            | TileType::CopperOre | TileType::SonoriteOre | TileType::GlimmerstoneOre
            | TileType::WhisperingIronOre | TileType::UnstableWall => true,
            _ => false,
        }
    }

    /// Whether the tile is an ore.
    pub fn is_ore(self) -> (b: bool)
        ensures
            b == ore(self),
    {
        match self {
            TileType::IronOre | TileType::CopperOre | TileType::SonoriteOre
            | TileType::GlimmerstoneOre | TileType::WhisperingIronOre => true,
            _ => false,
        }
    }
}

} // verus!
