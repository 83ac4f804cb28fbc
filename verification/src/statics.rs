//! Statics: things which have an unmoving presence in the world. Terrain,
//! walls, doors, tables, etc all fit into this category.

use crate::dijkstra_map::MapTag;
use vstd::prelude::*;

verus! {

/// Things which have a fixed presence in the world.
#[derive(Clone, Copy, Debug, PartialEq, Eq, PartialOrd, Ord, Structural)]
pub struct Static {
    /// What this is.
    pub tag: StaticTag,
    /// Acts as an obstruction to mobiles and heatmap flow.
    pub is_impassable: bool,
    /// Acts as an obstruction to line-of-sight.
    pub is_opaque: bool,
}

/// Types of `Static`s.
#[derive(Clone, Copy, Debug, PartialEq, Eq, PartialOrd, Ord, Structural)]
pub enum StaticTag {
    /// The dungeon entrance: source of Adventure, impassable, not opaque.
    Dungeon,
    /// The counter of a general store: source of GeneralTrade, impassable, not opaque.
    GStoreCounter,
    /// The counter of an inn: source of Sustenance, impassable, not opaque.
    InnCounter,
    /// A wall: impassable, opaque.
    Wall,
    /// A bed: source of Rest, passable, not opaque.
    Bed,
    /// A door: passable, not opaque.
    Door,
}

impl StaticTag {
    /// Whether things of this kind stop mobiles and heatmap flow.
    pub open spec fn blocks_movement(self) -> bool {
        self is Dungeon || self is GStoreCounter || self is InnCounter || self is Wall
    }

    /// Whether things of this kind stop line of sight.
    pub open spec fn blocks_sight(self) -> bool {
        self is Wall
    }

    /// The desire that things of this kind satisfy, if any.
    pub open spec fn produces(self) -> Option<MapTag> {
        match self {
            StaticTag::Dungeon => Some(MapTag::Adventure),
            StaticTag::GStoreCounter => Some(MapTag::GeneralStore),
            StaticTag::InnCounter => Some(MapTag::Sustenance),
            StaticTag::Bed => Some(MapTag::Rest),
            StaticTag::Wall | StaticTag::Door => None,
        }
    }
}

impl Static {
    /// Construct a new `Static` from its tag.
    pub fn new(tag: StaticTag) -> (s: Static)
        ensures
            s.tag == tag,
            s.is_impassable == tag.blocks_movement(),
            s.is_opaque == tag.blocks_sight(),
    {
        Static {
            tag: tag,
            is_impassable: match tag {
                StaticTag::Dungeon
                | StaticTag::GStoreCounter
                | StaticTag::InnCounter
                | StaticTag::Wall => true,
                _ => false,
            },
            is_opaque: match tag {
                StaticTag::Wall => true,
                _ => false,
            },
        }
    }

    /// The `MapTag` that this contributes to.
    pub fn maptag(&self) -> (t: Option<MapTag>)
        ensures
            t == self.tag.produces(),
    {
        match self.tag {
            StaticTag::Dungeon => Some(MapTag::Adventure),
            StaticTag::GStoreCounter => Some(MapTag::GeneralStore),
            StaticTag::InnCounter => Some(MapTag::Sustenance),
            StaticTag::Bed => Some(MapTag::Rest),
            StaticTag::Wall | StaticTag::Door => None,
        }
    }
}

} // verus!
