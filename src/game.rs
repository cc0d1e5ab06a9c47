//! A whole game: the authoritative state and one fog of war per player, all
//! driven by the same stream of events.

use std::rc::Rc;
use vstd::prelude::*;
use crate::fow::{
    FieldOfView, Fow, FowView, cleared, event_units_known, event_units_ready, fow_next,
    lemma_units_known_after,
};
use crate::keyed::keys_unique;
use crate::map::{Grid, cell_count};
use crate::state::{FullState, StateView, event_ok, initial_points, initial_score, next_view};
use crate::types::{CoreEvent, Db, Object, PlayerId, Sector, Terrain};

verus! {

/// The authoritative state and the grids of each player, in player order.
pub struct WorldView {
    pub state: StateView,
    pub fows: Seq<FowView>,
}

/// One event applied to the state, then to every player's grids.
pub open spec fn world_step<V: FieldOfView>(
    db: Db,
    fov: V,
    map: Grid<Terrain>,
    players: Seq<PlayerId>,
    w: WorldView,
    e: CoreEvent,
) -> WorldView {
    let s2 = next_view(db, w.state, e);
    WorldView {
        state: s2,
        fows: Seq::new(
            w.fows.len(),
            |i: int| fow_next(w.fows[i], map.spec_size(), map, s2, db, fov, players[i], e),
        ),
    }
}

/// The events of `log` applied one after the other.
pub open spec fn replay<V: FieldOfView>(
    db: Db,
    fov: V,
    map: Grid<Terrain>,
    players: Seq<PlayerId>,
    w: WorldView,
    log: Seq<CoreEvent>,
) -> WorldView
    decreases log.len(),
{
    if log.len() == 0 {
        w
    } else {
        world_step(db, fov, map, players, replay(db, fov, map, players, w, log.drop_last()), log.last())
    }
}

/// Replaying a whole recorded log from the start reaches, cell for cell and
/// unit for unit, what was reached by applying its first part and then the
/// rest, as during play.
pub proof fn lemma_replay_append<V: FieldOfView>(
    db: Db,
    fov: V,
    map: Grid<Terrain>,
    players: Seq<PlayerId>,
    w: WorldView,
    first: Seq<CoreEvent>,
    rest: Seq<CoreEvent>,
)
    ensures
        replay(db, fov, map, players, w, first + rest) == replay(
            db,
            fov,
            map,
            players,
            replay(db, fov, map, players, w, first),
            rest,
        ),
    decreases rest.len(),
{
    if rest.len() == 0 {
        assert(first + rest =~= first);
    } else {
        lemma_replay_append(db, fov, map, players, w, first, rest.drop_last());
        assert((first + rest).drop_last() =~= first + rest.drop_last());
        assert((first + rest).last() == rest.last());
    }
}

/// A game in progress.
pub struct Game {
    state: FullState,
    fows: Vec<Fow>,
}

impl View for Game {
    type V = WorldView;

    closed spec fn view(&self) -> WorldView {
        WorldView { state: self.state@, fows: self.fows@.map_values(|f: Fow| f@) }
    }
}

impl Game {
    pub closed spec fn spec_state(&self) -> FullState {
        self.state
    }

    /// The observing player of each fog of war, in order.
    pub closed spec fn players(&self) -> Seq<PlayerId> {
        self.fows@.map_values(|f: Fow| f.spec_player())
    }

    pub closed spec fn spec_fows(&self) -> Seq<Fow> {
        self.fows@
    }

    pub open spec fn wf(&self) -> bool {
        &&& self.spec_state().wf()
        &&& self.players().len() == self.spec_fows().len()
        &&& forall|i: int|
            0 <= i < self.spec_fows().len() ==> (#[trigger] self.spec_fows()[i]).wf()
                && self.spec_fows()[i].fits(self.spec_state())
    }

    /// A game on `map` before any event, with players `0 .. players_count`,
    /// each with a fog of war where nothing is seen yet.
    pub fn new(
        db: Rc<Db>,
        map: Grid<Terrain>,
        objects: Vec<Object>,
        sectors: Vec<Sector>,
        players_count: i32,
    ) -> (r: Game)
        requires
            map.wf(),
            cell_count(map.spec_size()) <= usize::MAX,
            keys_unique(objects@),
            keys_unique(sectors@),
        ensures
            r.wf(),
            r.spec_state().spec_map() == map,
            r.spec_state().spec_db() == *db,
            r@.state.units == Seq::<crate::types::Unit>::empty(),
            r@.state.objects == objects@,
            r@.state.sectors == sectors@,
            r@.state.score == initial_score(players_count),
            r.spec_state().spec_reinforcement_points() == initial_points(players_count),
            r.players() == Seq::new(
                if players_count < 0 { 0 } else { players_count as nat },
                |i: int| PlayerId { id: i as i32 },
            ),
            forall|i: int|
                0 <= i < r@.fows.len() ==> (#[trigger] r@.fows[i]) == (FowView {
                    ground: cleared(cell_count(map.spec_size()) as nat),
                    air: cleared(cell_count(map.spec_size()) as nat),
                }),
    {
        let size = map.size();
        let state = FullState::new(db.clone(), map, objects, sectors, players_count);
        let mut fows: Vec<Fow> = Vec::new();
        let mut i: i32 = 0;
        while i < players_count
            invariant
                0 <= i,
                i <= players_count || players_count < 0,
                players_count < 0 ==> i == 0,
                state.wf(),
                state.spec_map().spec_size() == size,
                state.spec_db() == *db,
                size == map.spec_size(),
                crate::map::size_ok(size),
                cell_count(size) <= usize::MAX,
                fows@.len() == i,
                forall|k: int|
                    0 <= k < i ==> (#[trigger] fows@[k]).wf() && fows@[k].fits(state)
                        && fows@[k].spec_player() == (PlayerId { id: k as i32 })
                        && fows@[k]@ == (FowView {
                        ground: cleared(cell_count(size) as nat),
                        air: cleared(cell_count(size) as nat),
                    }),
            decreases players_count - i,
        {
            fows.push(Fow::new(db.clone(), size, PlayerId { id: i }));
            i += 1;
        }
        let r = Game { state, fows };
        assert(r.players() =~= Seq::new(
            if players_count < 0 { 0 } else { players_count as nat },
            |i: int| PlayerId { id: i as i32 },
        ));
        r
    }

    pub fn state(&self) -> (r: &FullState)
        ensures
            *r == self.spec_state(),
    {
        &self.state
    }

    /// The fog of war of the `i`-th player.
    pub fn fow(&self, i: usize) -> (r: &Fow)
        requires
            i < self.spec_fows().len(),
        ensures
            *r == self.spec_fows()[i as int],
    {
        &self.fows[i]
    }

    pub fn players_count(&self) -> (r: usize)
        ensures
            r == self.spec_fows().len(),
    {
        self.fows.len()
    }

    /// Applies one event to the state, then to every player's fog of war.
    pub fn apply_event<V: FieldOfView>(&mut self, event: &CoreEvent, fov: &V)
        requires
            old(self).wf(),
            event_ok(old(self).spec_state().spec_db(), *event),
            event_units_ready(
                old(self).spec_state().spec_map().spec_size(),
                old(self)@.state.units,
                *event,
            ),
        ensures
            final(self).wf(),
            final(self).players() == old(self).players(),
            final(self).spec_state().spec_map() == old(self).spec_state().spec_map(),
            final(self).spec_state().spec_db() == old(self).spec_state().spec_db(),
            final(self)@ == world_step(
                old(self).spec_state().spec_db(),
                *fov,
                old(self).spec_state().spec_map(),
                old(self).players(),
                old(self)@,
                *event,
            ),
    {
        let ghost w0 = self@;
        let ghost players = self.players();
        let ghost db = self.state.spec_db();
        let ghost map = self.state.spec_map();
        let ghost start = self.fows@;
        proof {
            lemma_units_known_after(db, map.spec_size(), self.state@, *event);
        }
        self.state.apply_event(event);
        let mut pending: Vec<Fow> = Vec::new();
        std::mem::swap(&mut pending, &mut self.fows);
        let n = pending.len();
        let mut i: usize = 0;
        while i < n
            invariant
                self.state.wf(),
                self.state.spec_db() == db,
                self.state.spec_map() == map,
                self.state@ == next_view(db, w0.state, *event),
                event_units_known(map.spec_size(), self.state@.units, *event),
                n == start.len(),
                i <= n,
                pending@ == start.subrange(i as int, n as int),
                self.fows@.len() == i,
                forall|k: int| 0 <= k < n ==> (#[trigger] start[k]).wf() && start[k].spec_db() == db
                    && start[k].spec_size() == map.spec_size(),
                forall|k: int|
                    0 <= k < i ==> (#[trigger] self.fows@[k]).wf() && self.fows@[k].fits(self.state)
                        && self.fows@[k].spec_player() == start[k].spec_player()
                        && self.fows@[k]@ == fow_next(
                        start[k]@,
                        map.spec_size(),
                        map,
                        self.state@,
                        db,
                        *fov,
                        start[k].spec_player(),
                        *event,
                    ),
            decreases n - i,
        {
            let mut f = pending.remove(0);
            assert(f == start[i as int]);
            f.apply_event(&self.state, event, fov);
            self.fows.push(f);
            i += 1;
            assert(pending@ =~= start.subrange(i as int, n as int));
        }
        proof {
            assert(self.players() =~= players);
            assert(self@.fows =~= world_step(db, *fov, map, players, w0, *event).fows);
        }
    }

    /// Applies the events of `log` in order.
    pub fn apply_log<V: FieldOfView>(&mut self, log: &Vec<CoreEvent>, fov: &V)
        requires
            old(self).wf(),
            forall|i: int|
                0 <= i < log@.len() ==> event_ok(old(self).spec_state().spec_db(), #[trigger] log@[i]),
            forall|i: int|
                0 <= i < log@.len() ==> event_units_ready(
                    old(self).spec_state().spec_map().spec_size(),
                    replay(
                        old(self).spec_state().spec_db(),
                        *fov,
                        old(self).spec_state().spec_map(),
                        old(self).players(),
                        old(self)@,
                        log@.subrange(0, i),
                    ).state.units,
                    #[trigger] log@[i],
                ),
        ensures
            final(self).wf(),
            final(self).players() == old(self).players(),
            final(self)@ == replay(
                old(self).spec_state().spec_db(),
                *fov,
                old(self).spec_state().spec_map(),
                old(self).players(),
                old(self)@,
                log@,
            ),
    {
        let ghost w0 = self@;
        let ghost players = self.players();
        let ghost db = self.state.spec_db();
        let ghost map = self.state.spec_map();
        let mut i: usize = 0;
        while i < log.len()
            invariant
                self.wf(),
                self.players() == players,
                self.state.spec_db() == db,
                self.state.spec_map() == map,
                i <= log@.len(),
                forall|k: int| 0 <= k < log@.len() ==> event_ok(db, #[trigger] log@[k]),
                forall|k: int|
                    0 <= k < log@.len() ==> event_units_ready(
                        map.spec_size(),
                        replay(db, *fov, map, players, w0, log@.subrange(0, k)).state.units,
                        #[trigger] log@[k],
                    ),
                self@ == replay(db, *fov, map, players, w0, log@.subrange(0, i as int)),
            decreases log@.len() - i,
        {
            proof {
                let s1 = log@.subrange(0, i + 1);
                assert(s1.drop_last() =~= log@.subrange(0, i as int));
                assert(s1.last() == log@[i as int]);
            }
            self.apply_event(&log[i], fov);
            i += 1;
        }
        assert(log@.subrange(0, log@.len() as int) =~= log@);
    }
}

} // verus!
