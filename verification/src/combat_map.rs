//! The map of a combat scene, as it is loaded.

use vstd::prelude::*;

verus! {

/// A move that a zone allows: the zone it leads to, and the skill check that
/// guards it, if any.
#[derive(Debug)]
pub struct ZoneMove {
    pub check: Option<String>,
    pub tag: String,
}

impl Clone for ZoneMove {
    fn clone(&self) -> (copy: Self)
        ensures
            copy == *self,
    {
        ZoneMove {
            check: match &self.check {
                Some(check) => Some(check.clone()),
                None => None,
            },
            tag: self.tag.clone(),
        }
    }
}

/// One zone of a map.
#[derive(Debug)]
pub struct MapZone {
    pub name: String,
    pub tag: String,
    pub adjacent: Vec<ZoneMove>,
}

/// Where a character stands when combat begins.
#[derive(Debug)]
pub struct StartPosition {
    pub entity_tag: String,
    pub zone_tag: String,
}

/// A map: its picture, its zones, and who starts where.
#[derive(Debug)]
pub struct CombatMap {
    pub bitmap: String,
    pub zones: Vec<MapZone>,
    pub start_positions: Vec<StartPosition>,
}

} // verus!
