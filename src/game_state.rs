//! The capability interface shared by the authoritative state and the
//! per-player views: the same queries, with units filtered by each view.

use vstd::prelude::*;
use crate::fow::{FakeFow, FieldOfView, FogOfWar, event_units_ready, fake_fow};
use crate::keyed::{find_key, has_key, lemma_filter_prefix};
use crate::map::Grid;
use crate::partial_state::{PartialState, TmpPartialState, visible_units};
use crate::state::{FullState, event_ok, first_unit_at, next_view};
use crate::types::{
    CoreEvent, ExactPos, MapPos, Object, ReinforcementPoints, Score, Sector, Terrain, Unit, UnitId,
    object_covers,
};

verus! {

/// Read access to a game, as one observer has it.
pub trait GameState {
    /// Whether the view holds together.
    spec fn inv(&self) -> bool;

    /// The state that the view reads.
    spec fn base(&self) -> FullState;

    /// Whether the view lets the unit through to its observer.
    spec fn shows(&self, unit: Unit) -> bool;

    fn map(&self) -> (r: &Grid<Terrain>)
        ensures
            *r == self.base().spec_map(),
    ;

    /// Every unit, with no filtering.
    fn units(&self) -> (r: &Vec<Unit>)
        ensures
            r@ == self.base()@.units,
    ;

    /// The units that the observer sees, in order.
    fn units2(&self) -> (r: Vec<Unit>)
        requires
            self.inv(),
        ensures
            r@ == self.base()@.units.filter(|u: Unit| self.shows(u)),
    ;

    fn unit_opt(&self, id: UnitId) -> (r: Option<Unit>)
        requires
            self.inv(),
        ensures
            r == find_key(self.base()@.units, id.id),
    ;

    fn objects(&self) -> (r: &Vec<Object>)
        ensures
            r@ == self.base()@.objects,
    ;

    fn sectors(&self) -> (r: &Vec<Sector>)
        ensures
            r@ == self.base()@.sectors,
    ;

    fn score(&self) -> (r: &Vec<Score>)
        ensures
            r@ == self.base()@.score,
    ;

    fn reinforcement_points(&self) -> (r: &Vec<ReinforcementPoints>)
        ensures
            r@ == self.base().spec_reinforcement_points(),
    ;
}

/// A game state that events change.
pub trait GameStateMut: GameState + Sized {
    /// Whether the view can take the event: it knows the units that it must
    /// look up for it.
    spec fn accepts(&self, event: CoreEvent) -> bool;

    /// Applies one event; a view that keeps a fog of war lets its units see
    /// the cells that `fov` lists.
    fn apply_event<V: FieldOfView>(&mut self, event: &CoreEvent, fov: &V)
        requires
            old(self).inv(),
            event_ok(old(self).base().spec_db(), *event),
            old(self).accepts(*event),
        ensures
            final(self).inv(),
            final(self).base().spec_map() == old(self).base().spec_map(),
            final(self).base().spec_db() == old(self).base().spec_db(),
            final(self).base()@ == next_view(old(self).base().spec_db(), old(self).base()@, *event),
    ;
}

impl GameState for FullState {
    open spec fn inv(&self) -> bool {
        self.wf()
    }

    open spec fn base(&self) -> FullState {
        *self
    }

    open spec fn shows(&self, unit: Unit) -> bool {
        true
    }

    fn map(&self) -> (r: &Grid<Terrain>) {
        FullState::map(self)
    }

    fn units(&self) -> (r: &Vec<Unit>) {
        FullState::units(self)
    }

    fn units2(&self) -> (r: Vec<Unit>) {
        let fake: FakeFow = fake_fow();
        let r = visible_units(FullState::units(self), &fake);
        proof {
            assert((|u: Unit| self.shows(u)) =~= (|u: Unit| fake.spec_is_visible(u, u.pos)));
        }
        r
    }

    fn unit_opt(&self, id: UnitId) -> (r: Option<Unit>) {
        FullState::unit_opt(self, id)
    }

    fn objects(&self) -> (r: &Vec<Object>) {
        FullState::objects(self)
    }

    fn sectors(&self) -> (r: &Vec<Sector>) {
        FullState::sectors(self)
    }

    fn score(&self) -> (r: &Vec<Score>) {
        FullState::score(self)
    }

    fn reinforcement_points(&self) -> (r: &Vec<ReinforcementPoints>) {
        FullState::reinforcement_points(self)
    }
}

impl GameStateMut for FullState {
    open spec fn accepts(&self, event: CoreEvent) -> bool {
        true
    }

    fn apply_event<V: FieldOfView>(&mut self, event: &CoreEvent, fov: &V) {
        FullState::apply_event(self, event)
    }
}

impl GameState for PartialState {
    open spec fn inv(&self) -> bool {
        self.wf()
    }

    open spec fn base(&self) -> FullState {
        self.spec_state()
    }

    /// Its state holds only what the player was told of: nothing more is hidden.
    open spec fn shows(&self, unit: Unit) -> bool {
        true
    }

    fn map(&self) -> (r: &Grid<Terrain>) {
        PartialState::map(self)
    }

    fn units(&self) -> (r: &Vec<Unit>) {
        PartialState::units(self)
    }

    fn units2(&self) -> (r: Vec<Unit>) {
        let fake: FakeFow = fake_fow();
        let r = visible_units(PartialState::units(self), &fake);
        proof {
            assert((|u: Unit| self.shows(u)) =~= (|u: Unit| fake.spec_is_visible(u, u.pos)));
        }
        r
    }

    fn unit_opt(&self, id: UnitId) -> (r: Option<Unit>) {
        PartialState::unit_opt(self, id)
    }

    fn objects(&self) -> (r: &Vec<Object>) {
        PartialState::objects(self)
    }

    fn sectors(&self) -> (r: &Vec<Sector>) {
        PartialState::sectors(self)
    }

    fn score(&self) -> (r: &Vec<Score>) {
        PartialState::score(self)
    }

    fn reinforcement_points(&self) -> (r: &Vec<ReinforcementPoints>) {
        PartialState::reinforcement_points(self)
    }
}

impl GameStateMut for PartialState {
    open spec fn accepts(&self, event: CoreEvent) -> bool {
        event_units_ready(self.spec_fow().spec_size(), self.spec_state()@.units, event)
    }

    fn apply_event<V: FieldOfView>(&mut self, event: &CoreEvent, fov: &V) {
        PartialState::apply_event(self, event, fov)
    }
}

impl<'a> GameState for TmpPartialState<'a> {
    open spec fn inv(&self) -> bool {
        self.spec_state().wf() && self.spec_fow().wf()
    }

    open spec fn base(&self) -> FullState {
        self.spec_state()
    }

    open spec fn shows(&self, unit: Unit) -> bool {
        self.spec_fow().spec_is_visible(unit, unit.pos)
    }

    fn map(&self) -> (r: &Grid<Terrain>) {
        TmpPartialState::map(self)
    }

    fn units(&self) -> (r: &Vec<Unit>) {
        TmpPartialState::units(self)
    }

    fn units2(&self) -> (r: Vec<Unit>) {
        let r = TmpPartialState::units2(self);
        proof {
            assert((|u: Unit| self.shows(u)) =~= (|u: Unit| self.spec_fow().spec_is_visible(u, u.pos)));
        }
        r
    }

    fn unit_opt(&self, id: UnitId) -> (r: Option<Unit>) {
        TmpPartialState::unit_opt(self, id)
    }

    fn objects(&self) -> (r: &Vec<Object>) {
        TmpPartialState::objects(self)
    }

    fn sectors(&self) -> (r: &Vec<Sector>) {
        TmpPartialState::sectors(self)
    }

    fn score(&self) -> (r: &Vec<Score>) {
        TmpPartialState::score(self)
    }

    fn reinforcement_points(&self) -> (r: &Vec<ReinforcementPoints>) {
        TmpPartialState::reinforcement_points(self)
    }
}

/// The units that the observer of `state` sees, in order.
pub open spec fn seen<S: GameState>(state: &S) -> Seq<Unit> {
    state.base()@.units.filter(|u: Unit| state.shows(u))
}

/// The unit with the given id, which must exist.
pub fn unit<S: GameState>(state: &S, id: UnitId) -> (r: Unit)
    requires
        state.inv(),
        has_key(state.base()@.units, id.id),
    ensures
        find_key(state.base()@.units, id.id) == Some(r),
{
    match state.unit_opt(id) {
        Some(u) => u,
        None => {
            assert(false);
            state.units()[0]
        },
    }
}

/// The units of `units` whose cell is `pos`, in order.
fn keep_at(units: &Vec<Unit>, pos: MapPos) -> (r: Vec<Unit>)
    ensures
        r@ == units@.filter(|u: Unit| u.pos.map_pos == pos),
{
    let ghost pred = |u: Unit| u.pos.map_pos == pos;
    let mut r: Vec<Unit> = Vec::new();
    let mut i: usize = 0;
    while i < units.len()
        invariant
            i <= units@.len(),
            pred == (|u: Unit| u.pos.map_pos == pos),
            r@ == units@.subrange(0, i as int).filter(pred),
        decreases units@.len() - i,
    {
        let u = units[i];
        if u.pos.map_pos == pos {
            r.push(u);
        }
        proof {
            lemma_filter_prefix(units@, i as int, pred);
        }
        i += 1;
    }
    assert(units@.subrange(0, units@.len() as int) =~= units@);
    r
}

/// The units that the observer sees in the cell `pos`, in order.
pub fn units_at<S: GameState>(state: &S, pos: MapPos) -> (r: Vec<Unit>)
    requires
        state.inv(),
    ensures
        r@ == seen(state).filter(|u: Unit| u.pos.map_pos == pos),
{
    let seen = state.units2();
    keep_at(&seen, pos)
}

/// The first unit that the observer sees standing exactly at `pos`, if any.
pub fn unit_at_opt<S: GameState>(state: &S, pos: ExactPos) -> (r: Option<Unit>)
    requires
        state.inv(),
    ensures
        ({
            let s = seen(state);
            &&& r.is_none() <==> forall|i: int| 0 <= i < s.len() ==> (#[trigger] s[i]).pos != pos
            &&& r matches Some(u) ==> first_unit_at(s, pos, u)
        }),
{
    let units = state.units2();
    let mut i: usize = 0;
    while i < units.len()
        invariant
            units@ == seen(state),
            i <= units@.len(),
            forall|j: int| 0 <= j < i ==> (#[trigger] units@[j]).pos != pos,
        decreases units@.len() - i,
    {
        if units[i].pos == pos {
            assert(first_unit_at(units@, pos, units@[i as int]));
            return Some(units[i]);
        }
        i += 1;
    }
    None
}

/// The unit that the observer sees standing exactly at `pos`, which must exist.
pub fn unit_at<S: GameState>(state: &S, pos: ExactPos) -> (r: Unit)
    requires
        state.inv(),
        exists|i: int| 0 <= i < seen(state).len() && (#[trigger] seen(state)[i]).pos == pos,
    ensures
        first_unit_at(seen(state), pos, r),
{
    match unit_at_opt(state, pos) {
        Some(u) => u,
        None => {
            assert(false);
            state.units()[0]
        },
    }
}

/// The objects that cover the cell `pos`, in order.
pub fn objects_at<S: GameState>(state: &S, pos: MapPos) -> (r: Vec<Object>)
    ensures
        r@ == state.base()@.objects.filter(|o: Object| object_covers(o, pos)),
{
    let objects = state.objects();
    let ghost pred = |o: Object| object_covers(o, pos);
    let mut r: Vec<Object> = Vec::new();
    let mut i: usize = 0;
    while i < objects.len()
        invariant
            i <= objects@.len(),
            pred == (|o: Object| object_covers(o, pos)),
            r@ == objects@.subrange(0, i as int).filter(pred),
        decreases objects@.len() - i,
    {
        let o = objects[i];
        if o.pos == pos || o.second_cell == Some(pos) {
            r.push(o);
        }
        proof {
            lemma_filter_prefix(objects@, i as int, pred);
        }
        i += 1;
    }
    assert(objects@.subrange(0, objects@.len() as int) =~= objects@);
    r
}

} // verus!
