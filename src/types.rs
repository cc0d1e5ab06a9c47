//! Plain value types of the game: identifiers, positions, terrain, units,
//! objects, sectors and the events that change a game.

use vstd::prelude::*;

verus! {

/// A cell of the hexagonal map, in offset coordinates.
#[derive(Clone, Copy, PartialEq, Eq, Structural, Debug)]
pub struct MapPos {
    pub x: i32,
    pub y: i32,
}

/// Where inside a cell a unit stands: one of the ground slots, or the air slot.
#[derive(Clone, Copy, PartialEq, Eq, Structural, Debug)]
pub enum SlotId {
    Id(u8),
    Air,
}

/// A cell together with a slot inside it.
#[derive(Clone, Copy, PartialEq, Eq, Structural, Debug)]
pub struct ExactPos {
    pub map_pos: MapPos,
    pub slot_id: SlotId,
}

#[derive(Clone, Copy, PartialEq, Eq, Structural, Debug)]
pub struct PlayerId {
    pub id: i32,
}

#[derive(Clone, Copy, PartialEq, Eq, Structural, Debug)]
pub struct UnitId {
    pub id: i32,
}

/// Index of a unit type in the [`Db`].
#[derive(Clone, Copy, PartialEq, Eq, Structural, Debug)]
pub struct UnitTypeId {
    pub id: usize,
}

#[derive(Clone, Copy, PartialEq, Eq, Structural, Debug)]
pub struct ObjectId {
    pub id: i32,
}

#[derive(Clone, Copy, PartialEq, Eq, Structural, Debug)]
pub struct SectorId {
    pub id: i32,
}

/// Width and height of a map, in cells.
#[derive(Clone, Copy, PartialEq, Eq, Structural, Debug)]
pub struct Size2 {
    pub w: i32,
    pub h: i32,
}

#[derive(Clone, Copy, PartialEq, Eq, Structural, Debug)]
pub enum Terrain {
    Plain,
    Trees,
    City,
    Water,
}

#[derive(Clone, Copy, PartialEq, Eq, Structural, Debug)]
pub enum ObjectClass {
    Building,
    Road,
    Smoke,
    ReinforcementSector,
}

#[derive(Clone, Copy, PartialEq, Eq, Structural, Debug)]
pub enum ReactionFireMode {
    Normal,
    HoldFire,
}

/// What the game knows of a kind of unit.
#[derive(Clone, Copy, PartialEq, Eq, Structural, Debug)]
pub struct UnitType {
    /// Farthest distance at which the unit sees anything.
    pub los_range: i32,
    /// Distance within which the unit sees everything, whatever the terrain.
    pub cover_los_range: i32,
    pub is_air: bool,
    pub is_infantry: bool,
    /// Number of soldiers or vehicles in a fresh unit.
    pub count: i32,
}

/// The unit type database, shared read-only by every part of a game.
#[derive(Clone, Debug)]
pub struct Db {
    pub unit_types: Vec<UnitType>,
}

impl Db {
    pub open spec fn has_type(&self, type_id: UnitTypeId) -> bool {
        type_id.id < self.unit_types@.len()
    }

    pub open spec fn type_of(&self, type_id: UnitTypeId) -> UnitType {
        self.unit_types@[type_id.id as int]
    }

    pub fn unit_type(&self, type_id: UnitTypeId) -> (r: UnitType)
        requires
            self.has_type(type_id),
        ensures
            r == self.type_of(type_id),
    {
        self.unit_types[type_id.id]
    }
}

#[derive(Clone, Copy, PartialEq, Eq, Structural, Debug)]
pub struct Unit {
    pub id: UnitId,
    pub player_id: PlayerId,
    pub type_id: UnitTypeId,
    pub pos: ExactPos,
    pub count: i32,
    pub is_alive: bool,
    /// Set while the unit rides inside a transporter.
    pub is_loaded: bool,
    /// Set while the unit is towed by a transporter.
    pub is_attached: bool,
    pub passenger_id: Option<UnitId>,
    pub attached_unit_id: Option<UnitId>,
    pub reaction_fire_mode: ReactionFireMode,
}

pub open spec fn spec_is_passenger_or_attached(unit: Unit) -> bool {
    unit.is_loaded || unit.is_attached
}

/// Whether the unit is carried by another one and so cannot be seen by itself.
pub fn is_passenger_or_attached(unit: &Unit) -> (r: bool)
    ensures
        r == spec_is_passenger_or_attached(*unit),
{
    unit.is_loaded || unit.is_attached
}

/// A thing on the map that is not a unit: it covers its cell and, when
/// `second_cell` is set, that one too.
#[derive(Clone, Copy, PartialEq, Eq, Structural, Debug)]
pub struct Object {
    pub id: ObjectId,
    pub class: ObjectClass,
    pub pos: MapPos,
    pub second_cell: Option<MapPos>,
}

pub open spec fn object_covers(object: Object, pos: MapPos) -> bool {
    object.pos == pos || object.second_cell == Some(pos)
}

#[derive(Clone, Copy, PartialEq, Eq, Structural, Debug)]
pub struct Sector {
    pub id: SectorId,
    pub owner_id: Option<PlayerId>,
}

/// Victory points of one player.
#[derive(Clone, Copy, PartialEq, Eq, Structural, Debug)]
pub struct Score {
    pub player_id: PlayerId,
    pub n: i32,
}

/// Reinforcement points of one player.
#[derive(Clone, Copy, PartialEq, Eq, Structural, Debug)]
pub struct ReinforcementPoints {
    pub player_id: PlayerId,
    pub n: i32,
}

/// What an event tells of a unit that appears or moves out of a transporter.
#[derive(Clone, Copy, PartialEq, Eq, Structural, Debug)]
pub struct UnitInfo {
    pub unit_id: UnitId,
    pub pos: ExactPos,
    pub type_id: UnitTypeId,
    pub player_id: PlayerId,
}

#[derive(Clone, Copy, PartialEq, Eq, Structural, Debug)]
pub struct AttackInfo {
    /// The attacker, unless the attack does not disclose it.
    pub attacker_id: Option<UnitId>,
    pub defender_id: UnitId,
    pub killed: i32,
    pub is_ambush: bool,
}

/// The closed vocabulary of changes to a game.
#[allow(inconsistent_fields)]
#[derive(Clone, Copy, PartialEq, Eq, Structural, Debug)]
pub enum CoreEvent {
    Move { unit_id: UnitId, from: ExactPos, to: ExactPos },
    EndTurn { old_id: PlayerId, new_id: PlayerId },
    CreateUnit { unit_info: UnitInfo },
    AttackUnit { attack_info: AttackInfo },
    UnloadUnit { unit_info: UnitInfo, transporter_id: UnitId },
    Reveal { unit_info: UnitInfo },
    ShowUnit { unit_info: UnitInfo },
    HideUnit { unit_id: UnitId },
    LoadUnit { transporter_id: UnitId, passenger_id: UnitId, to: ExactPos },
    Attach { transporter_id: UnitId, attached_unit_id: UnitId },
    Detach { transporter_id: UnitId, to: ExactPos },
    SetReactionFireMode { unit_id: UnitId, mode: ReactionFireMode },
    SectorOwnerChanged { sector_id: SectorId, new_owner_id: Option<PlayerId> },
    Smoke { id: ObjectId, pos: MapPos, unit_id: Option<UnitId> },
    RemoveSmoke { id: ObjectId },
    VictoryPoint { player_id: PlayerId, pos: MapPos, count: i32 },
}

} // verus!
