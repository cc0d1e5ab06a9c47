//! Per-player views of a game: units filtered by what the player sees.

use std::rc::Rc;
use vstd::prelude::*;
use crate::fow::{
    FakeFow, FieldOfView, FogOfWar, Fow, FowView, cleared, event_units_ready, fake_fow, fow_next,
    lemma_units_known_after,
};
use crate::keyed::{find_key, keys_unique, lemma_filter_prefix};
use crate::map::{Grid, cell_count, in_map, index_of};
use crate::state::{FullState, StateView, event_ok, initial_points, initial_score, next_view};
use crate::types::{
    CoreEvent, Db, MapPos, Object, PlayerId, ReinforcementPoints, Score, Sector, Terrain, Unit,
    UnitId,
};

verus! {

/// The units of `units` that `fow` lets through, in order.
pub fn visible_units<F: FogOfWar>(units: &Vec<Unit>, fow: &F) -> (r: Vec<Unit>)
    requires
        fow.ready(),
    ensures
        r@ == units@.filter(|u: Unit| fow.spec_is_visible(u, u.pos)),
{
    let ghost pred = |u: Unit| fow.spec_is_visible(u, u.pos);
    let mut r: Vec<Unit> = Vec::new();
    let mut i: usize = 0;
    while i < units.len()
        invariant
            fow.ready(),
            pred == (|u: Unit| fow.spec_is_visible(u, u.pos)),
            i <= units@.len(),
            r@ == units@.subrange(0, i as int).filter(pred),
        decreases units@.len() - i,
    {
        let u = units[i];
        if fow.is_visible(&u, u.pos) {
            r.push(u);
        }
        proof {
            lemma_filter_prefix(units@, i as int, pred);
        }
        i += 1;
    }
    assert(units@.subrange(0, units@.len() as int) =~= units@);
    r
}

/// What one player's view holds: its state and its grids.
pub struct ViewState {
    pub state: StateView,
    pub fow: FowView,
}

/// One event applied to a player's view: to its state, then to its grids.
pub open spec fn view_step<V: FieldOfView>(
    db: Db,
    fov: V,
    map: Grid<Terrain>,
    player: PlayerId,
    v: ViewState,
    e: CoreEvent,
) -> ViewState {
    let s2 = next_view(db, v.state, e);
    ViewState { state: s2, fow: fow_next(v.fow, map.spec_size(), map, s2, db, fov, player, e) }
}

/// The events of `log` applied one after the other to a player's view.
pub open spec fn view_replay<V: FieldOfView>(
    db: Db,
    fov: V,
    map: Grid<Terrain>,
    player: PlayerId,
    v: ViewState,
    log: Seq<CoreEvent>,
) -> ViewState
    decreases log.len(),
{
    if log.len() == 0 {
        v
    } else {
        view_step(db, fov, map, player, view_replay(db, fov, map, player, v, log.drop_last()), log.last())
    }
}

/// Replaying a player's whole recorded log into a view reaches what applying
/// its first part and then the rest reached during play.
pub proof fn lemma_view_replay_append<V: FieldOfView>(
    db: Db,
    fov: V,
    map: Grid<Terrain>,
    player: PlayerId,
    v: ViewState,
    first: Seq<CoreEvent>,
    rest: Seq<CoreEvent>,
)
    ensures
        view_replay(db, fov, map, player, v, first + rest) == view_replay(
            db,
            fov,
            map,
            player,
            view_replay(db, fov, map, player, v, first),
            rest,
        ),
    decreases rest.len(),
{
    if rest.len() == 0 {
        assert(first + rest =~= first);
    } else {
        lemma_view_replay_append(db, fov, map, player, v, first, rest.drop_last());
        assert((first + rest).drop_last() =~= first + rest.drop_last());
        assert((first + rest).last() == rest.last());
    }
}

/// What one player knows of a game: a state of its own, fed the events that
/// the player is told of, and the player's fog of war.
pub struct PartialState {
    state: FullState,
    fow: Fow,
}

impl PartialState {
    pub closed spec fn spec_state(&self) -> FullState {
        self.state
    }

    pub closed spec fn spec_fow(&self) -> Fow {
        self.fow
    }

    pub open spec fn wf(&self) -> bool {
        self.spec_fow().wf() && self.spec_fow().fits(self.spec_state())
    }

    pub open spec fn spec_view(&self) -> ViewState {
        ViewState { state: self.spec_state()@, fow: self.spec_fow()@ }
    }

    /// Applies the events of `log` in order.
    pub fn apply_log<V: FieldOfView>(&mut self, log: &Vec<CoreEvent>, fov: &V)
        requires
            old(self).wf(),
            forall|i: int|
                0 <= i < log@.len() ==> event_ok(old(self).spec_state().spec_db(), #[trigger] log@[i]),
            forall|i: int|
                0 <= i < log@.len() ==> event_units_ready(
                    old(self).spec_fow().spec_size(),
                    view_replay(
                        old(self).spec_state().spec_db(),
                        *fov,
                        old(self).spec_state().spec_map(),
                        old(self).spec_fow().spec_player(),
                        old(self).spec_view(),
                        log@.subrange(0, i),
                    ).state.units,
                    #[trigger] log@[i],
                ),
        ensures
            final(self).wf(),
            final(self).spec_state().spec_map() == old(self).spec_state().spec_map(),
            final(self).spec_state().spec_db() == old(self).spec_state().spec_db(),
            final(self).spec_fow().spec_player() == old(self).spec_fow().spec_player(),
            final(self).spec_view() == view_replay(
                old(self).spec_state().spec_db(),
                *fov,
                old(self).spec_state().spec_map(),
                old(self).spec_fow().spec_player(),
                old(self).spec_view(),
                log@,
            ),
    {
        let ghost v0 = self.spec_view();
        let ghost db = self.state.spec_db();
        let ghost map = self.state.spec_map();
        let ghost player = self.fow.spec_player();
        let mut i: usize = 0;
        while i < log.len()
            invariant
                self.wf(),
                self.state.spec_db() == db,
                self.state.spec_map() == map,
                self.fow.spec_player() == player,
                i <= log@.len(),
                forall|k: int| 0 <= k < log@.len() ==> event_ok(db, #[trigger] log@[k]),
                forall|k: int|
                    0 <= k < log@.len() ==> event_units_ready(
                        map.spec_size(),
                        view_replay(db, *fov, map, player, v0, log@.subrange(0, k)).state.units,
                        #[trigger] log@[k],
                    ),
                self.spec_view() == view_replay(db, *fov, map, player, v0, log@.subrange(0, i as int)),
            decreases log@.len() - i,
        {
            proof {
                let s1 = log@.subrange(0, i + 1);
                assert(s1.drop_last() =~= log@.subrange(0, i as int));
                assert(s1.last() == log@[i as int]);
            }
            self.apply_event(&log[i], fov);
            i += 1;
        }
        assert(log@.subrange(0, log@.len() as int) =~= log@);
    }

    /// A view for `player_id` of a game on `map` before any event.
    pub fn new(
        db: Rc<Db>,
        map: Grid<Terrain>,
        objects: Vec<Object>,
        sectors: Vec<Sector>,
        players_count: i32,
        player_id: PlayerId,
    ) -> (r: PartialState)
        requires
            map.wf(),
            cell_count(map.spec_size()) <= usize::MAX,
            keys_unique(objects@),
            keys_unique(sectors@),
        ensures
            r.wf(),
            r.spec_state().spec_map() == map,
            r.spec_state().spec_db() == *db,
            r.spec_state()@.units == Seq::<Unit>::empty(),
            r.spec_state()@.objects == objects@,
            r.spec_state()@.sectors == sectors@,
            r.spec_state()@.score == initial_score(players_count),
            r.spec_state().spec_reinforcement_points() == initial_points(players_count),
            r.spec_fow().spec_player() == player_id,
            r.spec_fow().spec_db() == *db,
            r.spec_fow().spec_size() == map.spec_size(),
            r.spec_fow()@.ground == cleared(cell_count(map.spec_size()) as nat),
            r.spec_fow()@.air == cleared(cell_count(map.spec_size()) as nat),
    {
        let map_size = map.size();
        let state = FullState::new(db.clone(), map, objects, sectors, players_count);
        let fow = Fow::new(db, map_size, player_id);
        PartialState { state, fow }
    }

    pub fn is_tile_visible(&self, pos: MapPos) -> (r: bool)
        requires
            self.wf(),
        ensures
            r == (in_map(self.spec_fow().spec_size(), pos)
                && self.spec_fow()@.ground[index_of(self.spec_fow().spec_size(), pos)]
                != crate::fow::TileVisibility::No),
    {
        self.fow.is_tile_visible(pos)
    }

    /// Whether the player sees `unit` standing at its position.
    pub fn is_unit_visible(&self, unit: &Unit) -> (r: bool)
        requires
            self.wf(),
        ensures
            r == self.spec_fow().spec_is_visible(*unit, unit.pos),
    {
        self.fow.is_visible(unit, unit.pos)
    }

    pub fn fow(&self) -> (r: &Fow)
        ensures
            *r == self.spec_fow(),
    {
        &self.fow
    }

    pub fn units(&self) -> (r: &Vec<Unit>)
        ensures
            r@ == self.spec_state()@.units,
    {
        self.state.units()
    }

    /// The units of this view. Its state holds only what the player was
    /// told of, so nothing more is filtered out.
    pub fn units2(&self) -> (r: Vec<Unit>)
        ensures
            r@ == self.spec_state()@.units,
    {
        let fake: FakeFow = fake_fow();
        let r = visible_units(self.state.units(), &fake);
        proof {
            let s = self.state@.units;
            lemma_filter_all(s, |u: Unit| fake.spec_is_visible(u, u.pos));
        }
        r
    }

    pub fn unit_opt(&self, id: UnitId) -> (r: Option<Unit>)
        requires
            self.wf(),
        ensures
            r == find_key(self.spec_state()@.units, id.id),
    {
        self.state.unit_opt(id)
    }

    pub fn objects(&self) -> (r: &Vec<Object>)
        ensures
            r@ == self.spec_state()@.objects,
    {
        self.state.objects()
    }

    pub fn map(&self) -> (r: &Grid<Terrain>)
        ensures
            *r == self.spec_state().spec_map(),
    {
        self.state.map()
    }

    pub fn sectors(&self) -> (r: &Vec<Sector>)
        ensures
            r@ == self.spec_state()@.sectors,
    {
        self.state.sectors()
    }

    pub fn score(&self) -> (r: &Vec<Score>)
        ensures
            r@ == self.spec_state()@.score,
    {
        self.state.score()
    }

    pub fn reinforcement_points(&self) -> (r: &Vec<ReinforcementPoints>)
        ensures
            r@ == self.spec_state().spec_reinforcement_points(),
    {
        self.state.reinforcement_points()
    }

    /// Applies an event to the state, then to the fog of war, whose units
    /// see the cells that `fov` lists.
    pub fn apply_event<V: FieldOfView>(&mut self, event: &CoreEvent, fov: &V)
        requires
            old(self).wf(),
            event_ok(old(self).spec_state().spec_db(), *event),
            event_units_ready(old(self).spec_fow().spec_size(), old(self).spec_state()@.units, *event),
        ensures
            final(self).wf(),
            final(self).spec_state().spec_map() == old(self).spec_state().spec_map(),
            final(self).spec_state().spec_db() == old(self).spec_state().spec_db(),
            final(self).spec_state().spec_reinforcement_points() == old(
                self,
            ).spec_state().spec_reinforcement_points(),
            final(self).spec_fow().spec_player() == old(self).spec_fow().spec_player(),
            final(self).spec_fow().spec_db() == old(self).spec_fow().spec_db(),
            final(self).spec_fow().spec_size() == old(self).spec_fow().spec_size(),
            final(self).spec_state()@ == next_view(
                old(self).spec_state().spec_db(),
                old(self).spec_state()@,
                *event,
            ),
            final(self).spec_fow()@ == fow_next(
                old(self).spec_fow()@,
                old(self).spec_fow().spec_size(),
                old(self).spec_state().spec_map(),
                final(self).spec_state()@,
                old(self).spec_fow().spec_db(),
                *fov,
                old(self).spec_fow().spec_player(),
                *event,
            ),
    {
        proof {
            lemma_units_known_after(self.state.spec_db(), self.fow.spec_size(), self.state@, *event);
        }
        self.state.apply_event(event);
        self.fow.apply_event(&self.state, event, fov);
    }
}

proof fn lemma_filter_all(s: Seq<Unit>, pred: spec_fn(Unit) -> bool)
    requires
        forall|u: Unit| #[trigger] pred(u),
    ensures
        s.filter(pred) == s,
    decreases s.len(),
{
    reveal(Seq::filter);
    if s.len() > 0 {
        lemma_filter_all(s.drop_last(), pred);
        assert(s.drop_last().push(s.last()) =~= s);
    }
}

/// The view of one player over the authoritative state, through the
/// player's fog of war.
pub struct TmpPartialState<'a> {
    state: &'a FullState,
    fow: &'a Fow,
}

impl<'a> TmpPartialState<'a> {
    pub closed spec fn spec_state(&self) -> FullState {
        *self.state
    }

    pub closed spec fn spec_fow(&self) -> Fow {
        *self.fow
    }

    pub fn new(state: &'a FullState, fow: &'a Fow) -> (r: TmpPartialState<'a>)
        ensures
            r.spec_state() == *state,
            r.spec_fow() == *fow,
    {
        TmpPartialState { state, fow }
    }

    /// Every unit, with no filtering.
    pub fn units(&self) -> (r: &Vec<Unit>)
        ensures
            r@ == self.spec_state()@.units,
    {
        self.state.units()
    }

    /// The units that the player sees, in the order of the state.
    pub fn units2(&self) -> (r: Vec<Unit>)
        requires
            self.spec_fow().wf(),
        ensures
            r@ == self.spec_state()@.units.filter(
                |u: Unit| self.spec_fow().spec_is_visible(u, u.pos),
            ),
    {
        visible_units(self.state.units(), self.fow)
    }

    pub fn unit_opt(&self, id: UnitId) -> (r: Option<Unit>)
        requires
            self.spec_state().wf(),
        ensures
            r == find_key(self.spec_state()@.units, id.id),
    {
        self.state.unit_opt(id)
    }

    pub fn objects(&self) -> (r: &Vec<Object>)
        ensures
            r@ == self.spec_state()@.objects,
    {
        self.state.objects()
    }

    pub fn map(&self) -> (r: &Grid<Terrain>)
        ensures
            *r == self.spec_state().spec_map(),
    {
        self.state.map()
    }

    pub fn sectors(&self) -> (r: &Vec<Sector>)
        ensures
            r@ == self.spec_state()@.sectors,
    {
        self.state.sectors()
    }

    pub fn score(&self) -> (r: &Vec<Score>)
        ensures
            r@ == self.spec_state()@.score,
    {
        self.state.score()
    }

    pub fn reinforcement_points(&self) -> (r: &Vec<ReinforcementPoints>)
        ensures
            r@ == self.spec_state().spec_reinforcement_points(),
    {
        self.state.reinforcement_points()
    }
}

} // verus!
