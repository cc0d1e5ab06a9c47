//! The authoritative game state: every unit, object, sector and score, with
//! no filtering. It changes only by applying events.

use std::rc::Rc;
use vstd::prelude::*;
use crate::keyed::{
    Keyed, drop_key, find, find_key, has_key, key_index, keys_unique, lemma_drop_key_unique,
    lemma_put_key_unique, position, put, put_key, take_out,
};
use crate::map::Grid;
use crate::types::{
    CoreEvent, Db, ExactPos, MapPos, Object, ObjectClass, PlayerId, ReactionFireMode,
    ReinforcementPoints, Score, Sector, Terrain, Unit, UnitId, UnitInfo, object_covers,
};

verus! {

/// What events change in a game state.
pub struct StateView {
    pub units: Seq<Unit>,
    pub objects: Seq<Object>,
    pub sectors: Seq<Sector>,
    pub score: Seq<Score>,
}

/// Whether an event can be applied with the unit types of `db`.
pub open spec fn event_ok(db: Db, e: CoreEvent) -> bool {
    match e {
        CoreEvent::CreateUnit { unit_info } => db.has_type(unit_info.type_id),
        CoreEvent::ShowUnit { unit_info } => db.has_type(unit_info.type_id),
        CoreEvent::Reveal { unit_info } => db.has_type(unit_info.type_id),
        _ => true,
    }
}

/// The unit that an event names first and whose state before the event the
/// other units' changes depend on: the mover, or the transporter.
pub open spec fn event_key(e: CoreEvent) -> Option<UnitId> {
    match e {
        CoreEvent::Move { unit_id, .. } => Some(unit_id),
        CoreEvent::Attach { transporter_id, .. } => Some(transporter_id),
        CoreEvent::Detach { transporter_id, .. } => Some(transporter_id),
        _ => None,
    }
}

pub open spec fn key_unit(units: Seq<Unit>, e: CoreEvent) -> Option<Unit> {
    match event_key(e) {
        Some(id) => find_key(units, id.id),
        None => None,
    }
}

/// A fresh unit as an event describes it.
pub open spec fn new_unit(db: Db, info: UnitInfo) -> Unit {
    Unit {
        id: info.unit_id,
        player_id: info.player_id,
        type_id: info.type_id,
        pos: info.pos,
        count: db.type_of(info.type_id).count,
        is_alive: true,
        is_loaded: false,
        is_attached: false,
        passenger_id: None,
        attached_unit_id: None,
        reaction_fire_mode: ReactionFireMode::Normal,
    }
}

/// How many are left of `count` after `killed` fell; never below zero.
pub open spec fn survivors(count: i32, killed: i32) -> i32 {
    let k = if killed < 0 { 0 } else { killed };
    if k >= count { 0 } else { (count - k) as i32 }
}

/// What an event does to one unit that it keeps in the state. `key` is the
/// event's first unit before the event.
pub open spec fn edited_unit(e: CoreEvent, key: Option<Unit>, u: Unit) -> Unit {
    match e {
        CoreEvent::Move { unit_id, to, .. } => {
            let carried = match key {
                Some(k) => k.passenger_id == Some(u.id) || k.attached_unit_id == Some(u.id),
                None => false,
            };
            if u.id == unit_id || carried {
                Unit { pos: to, ..u }
            } else {
                u
            }
        },
        CoreEvent::AttackUnit { attack_info } => {
            if u.id == attack_info.defender_id {
                let c = survivors(u.count, attack_info.killed);
                Unit { count: c, is_alive: u.is_alive && c > 0, ..u }
            } else {
                u
            }
        },
        CoreEvent::UnloadUnit { unit_info, transporter_id } => {
            if u.id == unit_info.unit_id {
                Unit { pos: unit_info.pos, is_loaded: false, ..u }
            } else if u.id == transporter_id {
                Unit { passenger_id: None, ..u }
            } else {
                u
            }
        },
        CoreEvent::LoadUnit { transporter_id, passenger_id, to } => {
            if u.id == passenger_id {
                Unit { pos: to, is_loaded: true, ..u }
            } else if u.id == transporter_id {
                Unit { passenger_id: Some(passenger_id), ..u }
            } else {
                u
            }
        },
        CoreEvent::Attach { transporter_id, attached_unit_id } => {
            if u.id == attached_unit_id {
                let pos = match key {
                    Some(k) => k.pos,
                    None => u.pos,
                };
                Unit { pos: pos, is_attached: true, ..u }
            } else if u.id == transporter_id {
                Unit { attached_unit_id: Some(attached_unit_id), ..u }
            } else {
                u
            }
        },
        CoreEvent::Detach { transporter_id, to } => {
            let towed = match key {
                Some(k) => k.attached_unit_id == Some(u.id),
                None => false,
            };
            if u.id == transporter_id {
                Unit { pos: to, attached_unit_id: None, ..u }
            } else if towed {
                Unit { is_attached: false, ..u }
            } else {
                u
            }
        },
        CoreEvent::SetReactionFireMode { unit_id, mode } => {
            if u.id == unit_id {
                Unit { reaction_fire_mode: mode, ..u }
            } else {
                u
            }
        },
        _ => u,
    }
}

/// Every unit of `units` as the event leaves it.
pub open spec fn edited_units(units: Seq<Unit>, e: CoreEvent, key: Option<Unit>) -> Seq<Unit> {
    units.map_values(|u: Unit| edited_unit(e, key, u))
}

pub open spec fn next_units(db: Db, units: Seq<Unit>, e: CoreEvent) -> Seq<Unit> {
    match e {
        CoreEvent::CreateUnit { unit_info } => put_key(units, new_unit(db, unit_info)),
        CoreEvent::ShowUnit { unit_info } => put_key(units, new_unit(db, unit_info)),
        CoreEvent::Reveal { unit_info } => put_key(units, new_unit(db, unit_info)),
        CoreEvent::HideUnit { unit_id } => drop_key(units, unit_id.id),
        CoreEvent::EndTurn { .. }
        | CoreEvent::SectorOwnerChanged { .. }
        | CoreEvent::Smoke { .. }
        | CoreEvent::RemoveSmoke { .. }
        | CoreEvent::VictoryPoint { .. } => units,
        CoreEvent::Move { .. }
        | CoreEvent::AttackUnit { .. }
        | CoreEvent::UnloadUnit { .. }
        | CoreEvent::LoadUnit { .. }
        | CoreEvent::Attach { .. }
        | CoreEvent::Detach { .. }
        | CoreEvent::SetReactionFireMode { .. } => edited_units(units, e, key_unit(units, e)),
    }
}

pub open spec fn next_objects(objects: Seq<Object>, e: CoreEvent) -> Seq<Object> {
    match e {
        CoreEvent::Smoke { id, pos, .. } => put_key(
            objects,
            Object { id: id, class: ObjectClass::Smoke, pos: pos, second_cell: None },
        ),
        CoreEvent::RemoveSmoke { id } => drop_key(objects, id.id),
        _ => objects,
    }
}

pub open spec fn next_sectors(sectors: Seq<Sector>, e: CoreEvent) -> Seq<Sector> {
    match e {
        CoreEvent::SectorOwnerChanged { sector_id, new_owner_id } => {
            if has_key(sectors, sector_id.id) {
                put_key(sectors, Sector { id: sector_id, owner_id: new_owner_id })
            } else {
                sectors
            }
        },
        _ => sectors,
    }
}

/// `a + b`, held within the range of `i32`.
pub open spec fn saturating_sum(a: i32, b: i32) -> i32 {
    if a + b > i32::MAX {
        i32::MAX
    } else if a + b < i32::MIN {
        i32::MIN
    } else {
        (a + b) as i32
    }
}

pub open spec fn next_score(score: Seq<Score>, e: CoreEvent) -> Seq<Score> {
    match e {
        CoreEvent::VictoryPoint { player_id, count, .. } => {
            let before = match find_key(score, player_id.id) {
                Some(s) => s.n,
                None => 0,
            };
            put_key(score, Score { player_id: player_id, n: saturating_sum(before, count) })
        },
        _ => score,
    }
}

/// The state after one event.
pub open spec fn next_view(db: Db, v: StateView, e: CoreEvent) -> StateView {
    StateView {
        units: next_units(db, v.units, e),
        objects: next_objects(v.objects, e),
        sectors: next_sectors(v.sectors, e),
        score: next_score(v.score, e),
    }
}

/// Whether the state holds together: unique keys, and a known type for every unit.
pub open spec fn view_wf(db: Db, v: StateView) -> bool {
    &&& keys_unique(v.units)
    &&& keys_unique(v.objects)
    &&& keys_unique(v.sectors)
    &&& keys_unique(v.score)
    &&& forall|i: int| 0 <= i < v.units.len() ==> db.has_type(#[trigger] v.units[i].type_id)
}

/// Whether an object that blocks sight stands on the cell.
pub open spec fn occluded(objects: Seq<Object>, pos: MapPos) -> bool {
    exists|i: int|
        0 <= i < objects.len() && object_covers(#[trigger] objects[i], pos) && (objects[i].class
            == ObjectClass::Building || objects[i].class == ObjectClass::Smoke)
}

pub proof fn lemma_edited_unit_keeps(e: CoreEvent, key: Option<Unit>, u: Unit)
    ensures
        edited_unit(e, key, u).id == u.id,
        edited_unit(e, key, u).type_id == u.type_id,
        edited_unit(e, key, u).player_id == u.player_id,
{
}

#[verifier::rlimit(40)]
pub proof fn lemma_next_view_wf(db: Db, v: StateView, e: CoreEvent)
    requires
        view_wf(db, v),
        event_ok(db, e),
    ensures
        view_wf(db, next_view(db, v, e)),
{
    let n = next_view(db, v, e);
    match e {
        CoreEvent::CreateUnit { unit_info } => lemma_put_unit_wf(db, v.units, new_unit(db, unit_info)),
        CoreEvent::ShowUnit { unit_info } => lemma_put_unit_wf(db, v.units, new_unit(db, unit_info)),
        CoreEvent::Reveal { unit_info } => lemma_put_unit_wf(db, v.units, new_unit(db, unit_info)),
        CoreEvent::HideUnit { unit_id } => {
            lemma_drop_key_unique(v.units, unit_id.id);
            if has_key(v.units, unit_id.id) {
                let m = key_index(v.units, unit_id.id);
                assert forall|i: int| 0 <= i < n.units.len() implies db.has_type(
                    #[trigger] n.units[i].type_id,
                ) by {
                    if i >= m {
                        assert(n.units[i] == v.units[i + 1]);
                    }
                }
            }
        },
        CoreEvent::Smoke { id, pos, .. } => lemma_put_key_unique(
            v.objects,
            Object { id: id, class: ObjectClass::Smoke, pos: pos, second_cell: None },
        ),
        CoreEvent::RemoveSmoke { id } => lemma_drop_key_unique(v.objects, id.id),
        CoreEvent::SectorOwnerChanged { sector_id, new_owner_id } => lemma_put_key_unique(
            v.sectors,
            Sector { id: sector_id, owner_id: new_owner_id },
        ),
        CoreEvent::VictoryPoint { player_id, count, .. } => {
            let before = match find_key(v.score, player_id.id) {
                Some(s) => s.n,
                None => 0,
            };
            lemma_put_key_unique(
                v.score,
                Score { player_id: player_id, n: saturating_sum(before, count) },
            );
        },
        _ => {},
    }
    match e {
        CoreEvent::Move { .. }
        | CoreEvent::AttackUnit { .. }
        | CoreEvent::UnloadUnit { .. }
        | CoreEvent::LoadUnit { .. }
        | CoreEvent::Attach { .. }
        | CoreEvent::Detach { .. }
        | CoreEvent::SetReactionFireMode { .. } => lemma_edit_units_wf(
            db,
            v.units,
            e,
            key_unit(v.units, e),
        ),
        _ => {},
    }
}

proof fn lemma_edit_units_wf(db: Db, units: Seq<Unit>, e: CoreEvent, key: Option<Unit>)
    requires
        keys_unique(units),
        forall|i: int| 0 <= i < units.len() ==> db.has_type(#[trigger] units[i].type_id),
    ensures
        keys_unique(edited_units(units, e, key)),
        forall|i: int|
            0 <= i < units.len() ==> db.has_type(
                #[trigger] edited_units(units, e, key)[i].type_id,
            ),
{
    let n = edited_units(units, e, key);
    assert forall|i: int, j: int|
        0 <= i < n.len() && 0 <= j < n.len() && #[trigger] n[i].spec_key()
            == #[trigger] n[j].spec_key() implies i == j by {
        lemma_edited_unit_keeps(e, key, units[i]);
        lemma_edited_unit_keeps(e, key, units[j]);
        assert(units[i].spec_key() == units[j].spec_key());
    }
    assert forall|i: int| 0 <= i < units.len() implies db.has_type(#[trigger] n[i].type_id) by {
        lemma_edited_unit_keeps(e, key, units[i]);
    }
}

proof fn lemma_put_unit_wf(db: Db, units: Seq<Unit>, x: Unit)
    requires
        keys_unique(units),
        forall|i: int| 0 <= i < units.len() ==> db.has_type(#[trigger] units[i].type_id),
        db.has_type(x.type_id),
    ensures
        keys_unique(put_key(units, x)),
        forall|i: int|
            0 <= i < put_key(units, x).len() ==> db.has_type(#[trigger] put_key(units, x)[i].type_id),
{
    lemma_put_key_unique(units, x);
}


/// Players `0 .. players_count` with no victory points.
pub open spec fn initial_score(players_count: i32) -> Seq<Score> {
    Seq::new(
        if players_count < 0 { 0 } else { players_count as nat },
        |i: int| Score { player_id: PlayerId { id: i as i32 }, n: 0 },
    )
}

/// Players `0 .. players_count` with no reinforcement points.
pub open spec fn initial_points(players_count: i32) -> Seq<ReinforcementPoints> {
    Seq::new(
        if players_count < 0 { 0 } else { players_count as nat },
        |i: int| ReinforcementPoints { player_id: PlayerId { id: i as i32 }, n: 0 },
    )
}

/// The first unit standing exactly at `pos`, if any.
pub open spec fn first_unit_at(units: Seq<Unit>, pos: ExactPos, u: Unit) -> bool {
    exists|i: int|
        0 <= i < units.len() && units[i] == u && u.pos == pos && forall|j: int|
            0 <= j < i ==> (#[trigger] units[j]).pos != pos
}

fn survivors_exec(count: i32, killed: i32) -> (r: i32)
    ensures
        r == survivors(count, killed),
{
    let k = if killed < 0 { 0 } else { killed };
    if k >= count { 0 } else { count - k }
}

fn saturating_sum_exec(a: i32, b: i32) -> (r: i32)
    ensures
        r == saturating_sum(a, b),
{
    let s: i64 = a as i64 + b as i64;
    if s > i32::MAX as i64 {
        i32::MAX
    } else if s < i32::MIN as i64 {
        i32::MIN
    } else {
        s as i32
    }
}

fn edit_unit(e: &CoreEvent, key: &Option<Unit>, u: Unit) -> (r: Unit)
    ensures
        r == edited_unit(*e, *key, u),
{
    match *e {
        CoreEvent::Move { unit_id, to, .. } => {
            let carried = match key {
                Some(k) => k.passenger_id == Some(u.id) || k.attached_unit_id == Some(u.id),
                None => false,
            };
            if u.id == unit_id || carried {
                Unit { pos: to, ..u }
            } else {
                u
            }
        },
        CoreEvent::AttackUnit { attack_info } => {
            if u.id == attack_info.defender_id {
                let c = survivors_exec(u.count, attack_info.killed);
                Unit { count: c, is_alive: u.is_alive && c > 0, ..u }
            } else {
                u
            }
        },
        CoreEvent::UnloadUnit { unit_info, transporter_id } => {
            if u.id == unit_info.unit_id {
                Unit { pos: unit_info.pos, is_loaded: false, ..u }
            } else if u.id == transporter_id {
                Unit { passenger_id: None, ..u }
            } else {
                u
            }
        },
        CoreEvent::LoadUnit { transporter_id, passenger_id, to } => {
            if u.id == passenger_id {
                Unit { pos: to, is_loaded: true, ..u }
            } else if u.id == transporter_id {
                Unit { passenger_id: Some(passenger_id), ..u }
            } else {
                u
            }
        },
        CoreEvent::Attach { transporter_id, attached_unit_id } => {
            if u.id == attached_unit_id {
                let pos = match key {
                    Some(k) => k.pos,
                    None => u.pos,
                };
                Unit { pos: pos, is_attached: true, ..u }
            } else if u.id == transporter_id {
                Unit { attached_unit_id: Some(attached_unit_id), ..u }
            } else {
                u
            }
        },
        CoreEvent::Detach { transporter_id, to } => {
            let towed = match key {
                Some(k) => k.attached_unit_id == Some(u.id),
                None => false,
            };
            if u.id == transporter_id {
                Unit { pos: to, attached_unit_id: None, ..u }
            } else if towed {
                Unit { is_attached: false, ..u }
            } else {
                u
            }
        },
        CoreEvent::SetReactionFireMode { unit_id, mode } => {
            if u.id == unit_id {
                Unit { reaction_fire_mode: mode, ..u }
            } else {
                u
            }
        },
        CoreEvent::EndTurn { .. }
        | CoreEvent::CreateUnit { .. }
        | CoreEvent::Reveal { .. }
        | CoreEvent::ShowUnit { .. }
        | CoreEvent::HideUnit { .. }
        | CoreEvent::SectorOwnerChanged { .. }
        | CoreEvent::Smoke { .. }
        | CoreEvent::RemoveSmoke { .. }
        | CoreEvent::VictoryPoint { .. } => u,
    }
}

fn edit_units(units: &mut Vec<Unit>, e: &CoreEvent, key: Option<Unit>)
    ensures
        final(units)@ == edited_units(old(units)@, *e, key),
{
    let ghost start = units@;
    let mut i: usize = 0;
    while i < units.len()
        invariant
            units@.len() == start.len(),
            i <= start.len(),
            forall|j: int| 0 <= j < i ==> units@[j] == edited_unit(*e, key, #[trigger] start[j]),
            forall|j: int| i <= j < start.len() ==> units@[j] == start[j],
        decreases start.len() - i,
    {
        let u = units[i];
        let v = edit_unit(e, &key, u);
        units.set(i, v);
        i += 1;
    }
    assert(units@ =~= edited_units(start, *e, key));
}

/// The authoritative state of a game.
pub struct FullState {
    map: Grid<Terrain>,
    units: Vec<Unit>,
    objects: Vec<Object>,
    sectors: Vec<Sector>,
    score: Vec<Score>,
    reinforcement_points: Vec<ReinforcementPoints>,
    db: Rc<Db>,
}

impl View for FullState {
    type V = StateView;

    closed spec fn view(&self) -> StateView {
        StateView {
            units: self.units@,
            objects: self.objects@,
            sectors: self.sectors@,
            score: self.score@,
        }
    }
}

impl FullState {
    pub closed spec fn spec_map(&self) -> Grid<Terrain> {
        self.map
    }

    pub closed spec fn spec_db(&self) -> Db {
        *self.db
    }

    pub closed spec fn spec_reinforcement_points(&self) -> Seq<ReinforcementPoints> {
        self.reinforcement_points@
    }

    pub open spec fn wf(&self) -> bool {
        &&& self.spec_map().wf()
        &&& view_wf(self.spec_db(), self@)
        &&& keys_unique(self.spec_reinforcement_points())
    }

    /// A game on `map` before any event: no units, the given objects and
    /// sectors, and players `0 .. players_count` with no points.
    pub fn new(
        db: Rc<Db>,
        map: Grid<Terrain>,
        objects: Vec<Object>,
        sectors: Vec<Sector>,
        players_count: i32,
    ) -> (r: FullState)
        requires
            map.wf(),
            keys_unique(objects@),
            keys_unique(sectors@),
        ensures
            r.wf(),
            r.spec_map() == map,
            r.spec_db() == *db,
            r@.units == Seq::<Unit>::empty(),
            r@.objects == objects@,
            r@.sectors == sectors@,
            r@.score == initial_score(players_count),
            r.spec_reinforcement_points() == initial_points(players_count),
    {
        let mut score: Vec<Score> = Vec::new();
        let mut points: Vec<ReinforcementPoints> = Vec::new();
        let mut i: i32 = 0;
        while i < players_count
            invariant
                0 <= i,
                i <= players_count || players_count < 0,
                players_count < 0 ==> i == 0,
                score@ == Seq::new(i as nat, |k: int| Score { player_id: PlayerId { id: k as i32 }, n: 0 }),
                points@ == Seq::new(
                    i as nat,
                    |k: int| ReinforcementPoints { player_id: PlayerId { id: k as i32 }, n: 0 },
                ),
            decreases players_count - i,
        {
            score.push(Score { player_id: PlayerId { id: i }, n: 0 });
            points.push(ReinforcementPoints { player_id: PlayerId { id: i }, n: 0 });
            i += 1;
            assert(score@ =~= Seq::new(i as nat, |k: int| Score { player_id: PlayerId { id: k as i32 }, n: 0 }));
            assert(points@ =~= Seq::new(
                i as nat,
                |k: int| ReinforcementPoints { player_id: PlayerId { id: k as i32 }, n: 0 },
            ));
        }
        let r = FullState {
            map,
            units: Vec::new(),
            objects,
            sectors,
            score,
            reinforcement_points: points,
            db,
        };
        assert(keys_unique(r.score@));
        assert(keys_unique(r.reinforcement_points@));
        r
    }

    pub fn db(&self) -> (r: &Db)
        ensures
            *r == self.spec_db(),
    {
        &self.db
    }

    pub fn map(&self) -> (r: &Grid<Terrain>)
        ensures
            *r == self.spec_map(),
    {
        &self.map
    }

    /// Every unit, with no filtering.
    pub fn units(&self) -> (r: &Vec<Unit>)
        ensures
            r@ == self@.units,
    {
        &self.units
    }

    pub fn objects(&self) -> (r: &Vec<Object>)
        ensures
            r@ == self@.objects,
    {
        &self.objects
    }

    pub fn sectors(&self) -> (r: &Vec<Sector>)
        ensures
            r@ == self@.sectors,
    {
        &self.sectors
    }

    pub fn score(&self) -> (r: &Vec<Score>)
        ensures
            r@ == self@.score,
    {
        &self.score
    }

    pub fn reinforcement_points(&self) -> (r: &Vec<ReinforcementPoints>)
        ensures
            r@ == self.spec_reinforcement_points(),
    {
        &self.reinforcement_points
    }

    pub fn unit_opt(&self, id: UnitId) -> (r: Option<Unit>)
        requires
            self.wf(),
        ensures
            r == find_key(self@.units, id.id),
    {
        find(&self.units, id.id)
    }

    /// Whether a building or smoke covers the cell `pos`.
    pub fn is_occluded(&self, pos: MapPos) -> (r: bool)
        ensures
            r == occluded(self@.objects, pos),
    {
        let mut i: usize = 0;
        while i < self.objects.len()
            invariant
                i <= self.objects@.len(),
                forall|j: int|
                    0 <= j < i ==> !(object_covers(#[trigger] self.objects@[j], pos) && (
                    self.objects@[j].class == ObjectClass::Building || self.objects@[j].class
                        == ObjectClass::Smoke)),
            decreases self.objects@.len() - i,
        {
            let o = self.objects[i];
            let blocks = match o.class {
                ObjectClass::Building | ObjectClass::Smoke => true,
                ObjectClass::Road | ObjectClass::ReinforcementSector => false,
            };
            if blocks && (o.pos == pos || o.second_cell == Some(pos)) {
                return true;
            }
            i += 1;
        }
        false
    }

    /// Applies one event: the only way the state changes.
    pub fn apply_event(&mut self, event: &CoreEvent)
        requires
            old(self).wf(),
            event_ok(old(self).spec_db(), *event),
        ensures
            final(self).wf(),
            final(self)@ == next_view(old(self).spec_db(), old(self)@, *event),
            final(self).spec_map() == old(self).spec_map(),
            final(self).spec_db() == old(self).spec_db(),
            final(self).spec_reinforcement_points() == old(self).spec_reinforcement_points(),
    {
        proof {
            lemma_next_view_wf(self.spec_db(), self@, *event);
        }
        match *event {
            CoreEvent::CreateUnit { unit_info } => {
                let u = self.make_unit(unit_info);
                put(&mut self.units, u);
            },
            CoreEvent::ShowUnit { unit_info } => {
                let u = self.make_unit(unit_info);
                put(&mut self.units, u);
            },
            CoreEvent::Reveal { unit_info } => {
                let u = self.make_unit(unit_info);
                put(&mut self.units, u);
            },
            CoreEvent::HideUnit { unit_id } => {
                take_out(&mut self.units, unit_id.id);
            },
            CoreEvent::Smoke { id, pos, .. } => {
                put(
                    &mut self.objects,
                    Object { id: id, class: ObjectClass::Smoke, pos: pos, second_cell: None },
                );
            },
            CoreEvent::RemoveSmoke { id } => {
                take_out(&mut self.objects, id.id);
            },
            CoreEvent::SectorOwnerChanged { sector_id, new_owner_id } => {
                if position(&self.sectors, sector_id.id).is_some() {
                    put(&mut self.sectors, Sector { id: sector_id, owner_id: new_owner_id });
                }
            },
            CoreEvent::VictoryPoint { player_id, count, .. } => {
                let before = match find(&self.score, player_id.id) {
                    Some(s) => s.n,
                    None => 0,
                };
                put(
                    &mut self.score,
                    Score { player_id: player_id, n: saturating_sum_exec(before, count) },
                );
            },
            CoreEvent::EndTurn { .. } => {},
            CoreEvent::Move { unit_id: id, .. }
            | CoreEvent::Attach { transporter_id: id, .. }
            | CoreEvent::Detach { transporter_id: id, .. } => {
                let key = find(&self.units, id.id);
                edit_units(&mut self.units, event, key);
            },
            CoreEvent::AttackUnit { .. }
            | CoreEvent::UnloadUnit { .. }
            | CoreEvent::LoadUnit { .. }
            | CoreEvent::SetReactionFireMode { .. } => {
                edit_units(&mut self.units, event, None);
            },
        }
    }

    fn make_unit(&self, info: UnitInfo) -> (r: Unit)
        requires
            self.spec_db().has_type(info.type_id),
        ensures
            r == new_unit(self.spec_db(), info),
    {
        let t = self.db.unit_type(info.type_id);
        Unit {
            id: info.unit_id,
            player_id: info.player_id,
            type_id: info.type_id,
            pos: info.pos,
            count: t.count,
            is_alive: true,
            is_loaded: false,
            is_attached: false,
            passenger_id: None,
            attached_unit_id: None,
            reaction_fire_mode: ReactionFireMode::Normal,
        }
    }
}

} // verus!
