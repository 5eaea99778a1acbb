//! Map files: the layout of a level, where the player starts and which
//! enemies it holds. Coordinates are in fixed-point steps.

use vstd::prelude::*;
use vstd::std_specs::convert::FromSpecImpl;
use crate::fixed::Vec2;

verus! {

/// A point as a map file holds it.
#[derive(Clone, Copy, Debug, PartialEq, Eq, Structural)]
pub struct Vec2Def {
    pub x: i64,
    pub y: i64,
}

impl From<Vec2Def> for Vec2 {
    fn from(v: Vec2Def) -> (r: Vec2) {
        Vec2 { x: v.x, y: v.y }
    }
}

impl FromSpecImpl<Vec2Def> for Vec2 {
    open spec fn obeys_from_spec() -> bool {
        true
    }

    open spec fn from_spec(v: Vec2Def) -> Vec2 {
        Vec2 { x: v.x, y: v.y }
    }
}

/// The grid of a level and its stated size.
#[derive(Debug)]
pub struct MapDef {
    pub name: String,
    pub width: usize,
    pub height: usize,
    pub layout: Vec<Vec<i32>>,
}

#[derive(Clone, Copy, Debug, PartialEq, Eq, Structural)]
pub struct EnemyProperties {
    pub health: i32,
    pub damage: i32,
    pub speed: i64,
    pub attack_range: i64,
    pub chase_range: i64,
}

/// An enemy of a level: its kind, where it starts and its patrol route.
#[derive(Debug)]
pub struct EnemyDef {
    pub enemy_type: String,
    pub position: Vec2Def,
    pub patrol_points: Vec<Vec2Def>,
    pub properties: EnemyProperties,
}

#[derive(Clone, Copy, Debug, PartialEq, Eq, Structural)]
pub struct PlayerDef {
    pub spawn: Vec2Def,
    pub direction: Vec2Def,
}

#[derive(Debug)]
pub struct MetadataDef {
    pub author: String,
    pub description: String,
    pub version: String,
}

/// A level.
#[derive(Debug)]
pub struct MapFile {
    pub map: MapDef,
    pub enemies: Vec<EnemyDef>,
    pub player: PlayerDef,
    pub metadata: MetadataDef,
}

/// Why a map file is refused.
#[derive(Clone, Copy, Debug, PartialEq, Eq, Structural)]
pub enum MapError {
    /// The layout does not have as many rows as the stated height.
    HeightMismatch,
    /// A row of the layout is not as long as the stated width.
    WidthMismatch,
}

impl MapError {
    pub open spec fn text(self) -> Seq<char> {
        match self {
            MapError::HeightMismatch => "Map height mismatch"@,
            MapError::WidthMismatch => "Map width mismatch"@,
        }
    }

    /// A message for the user.
    pub fn message(&self) -> (m: String)
        ensures
            m@ == self.text(),
    {
        match self {
            MapError::HeightMismatch => "Map height mismatch".to_owned(),
            MapError::WidthMismatch => "Map width mismatch".to_owned(),
        }
    }
}

impl MapFile {
    /// The layout has as many rows as the stated height.
    pub open spec fn height_matches(&self) -> bool {
        self.map.layout@.len() == self.map.height
    }

    /// Every row of the layout is as long as the stated width.
    pub open spec fn width_matches(&self) -> bool {
        forall|y: int|
            0 <= y < self.map.layout@.len() ==> (#[trigger] self.map.layout@[y]).len() == self.map.width
    }

    /// Admits a map file whose layout has the stated height and width, and
    /// refuses any other, the height first.
    pub fn load(map_file: MapFile) -> (r: Result<MapFile, MapError>)
        ensures
            r is Ok <==> map_file.height_matches() && map_file.width_matches(),
            r matches Ok(m) ==> m == map_file,
            r matches Err(e) ==> e == if !map_file.height_matches() {
                MapError::HeightMismatch
            } else {
                MapError::WidthMismatch
            },
    {
        if map_file.map.layout.len() != map_file.map.height {
            return Err(MapError::HeightMismatch);
        }
        let mut y: usize = 0;
        while y < map_file.map.layout.len()
            invariant
                y <= map_file.map.layout@.len(),
                map_file.height_matches(),
                forall|k: int| 0 <= k < y ==> (#[trigger] map_file.map.layout@[k]).len() == map_file.map.width,
            decreases map_file.map.layout@.len() - y,
        {
            if map_file.map.layout[y].len() != map_file.map.width {
                return Err(MapError::WidthMismatch);
            }
            y = y + 1;
        }
        Ok(map_file)
    }
}

} // verus!
