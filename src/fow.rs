//! Fog of war: per-player visibility grids, computed from the player's own
//! units and patched event by event.

use std::rc::Rc;
use vstd::prelude::*;
use crate::keyed::{Keyed, find_key, has_key, key_index, lemma_key_index, lemma_put_key_unique};
use crate::map::{
    Grid, cell_at, cell_count, distance, hex_distance, in_map, index_of, lemma_cell_at,
    lemma_index_of_in_range, lemma_index_of_inverse, size_ok,
};
use crate::state::{
    FullState, StateView, edited_unit, event_ok, key_unit, lemma_edited_unit_keeps,
    lemma_next_view_wf, new_unit, next_view, occluded, view_wf,
};
use crate::types::{
    CoreEvent, Db, ExactPos, MapPos, Object, PlayerId, Size2, SlotId, Terrain, Unit, UnitType,
    is_passenger_or_attached, spec_is_passenger_or_attached,
};

verus! {

/// How well a cell is seen: `No < Normal < Excellent`.
#[derive(Clone, Copy, PartialEq, Eq, Structural, Debug)]
pub enum TileVisibility {
    No,
    Normal,
    Excellent,
}

pub open spec fn rank(v: TileVisibility) -> int {
    match v {
        TileVisibility::No => 0,
        TileVisibility::Normal => 1,
        TileVisibility::Excellent => 2,
    }
}

/// The better of two visibilities.
pub open spec fn vis_max(a: TileVisibility, b: TileVisibility) -> TileVisibility {
    if rank(a) >= rank(b) {
        a
    } else {
        b
    }
}

impl Default for TileVisibility {
    fn default() -> (r: Self)
        ensures
            r == TileVisibility::No,
    {
        TileVisibility::No
    }
}

/// Visibilities compare by how much they show.
pub open spec fn vis_cmp(a: TileVisibility, b: TileVisibility) -> std::cmp::Ordering {
    if rank(a) < rank(b) {
        std::cmp::Ordering::Less
    } else if rank(a) > rank(b) {
        std::cmp::Ordering::Greater
    } else {
        std::cmp::Ordering::Equal
    }
}

impl PartialOrd for TileVisibility {
    fn partial_cmp(&self, other: &TileVisibility) -> (r: Option<std::cmp::Ordering>) {
        let a = self.rank();
        let b = other.rank();
        if a < b {
            Some(std::cmp::Ordering::Less)
        } else if a > b {
            Some(std::cmp::Ordering::Greater)
        } else {
            Some(std::cmp::Ordering::Equal)
        }
    }
}

impl vstd::std_specs::cmp::PartialOrdSpecImpl for TileVisibility {
    open spec fn obeys_partial_cmp_spec() -> bool {
        true
    }

    open spec fn partial_cmp_spec(&self, other: &TileVisibility) -> Option<std::cmp::Ordering> {
        Some(vis_cmp(*self, *other))
    }
}

impl TileVisibility {
    pub fn rank(&self) -> (r: u8)
        ensures
            r == rank(*self),
    {
        match self {
            TileVisibility::No => 0,
            TileVisibility::Normal => 1,
            TileVisibility::Excellent => 2,
        }
    }
}

/// What the terrain of a cell allows to see of it from beyond cover range.
pub open spec fn terrain_visibility(t: Terrain) -> TileVisibility {
    match t {
        Terrain::City | Terrain::Trees => TileVisibility::Normal,
        Terrain::Plain | Terrain::Water => TileVisibility::Excellent,
    }
}

/// How well a unit of type `ut` at `origin` sees the cell `pos`, whose terrain
/// is `terrain` and which a building or smoke covers when `blocked`.
pub open spec fn visibility(
    ut: UnitType,
    origin: MapPos,
    pos: MapPos,
    terrain: Terrain,
    blocked: bool,
) -> TileVisibility {
    let d = hex_distance(origin, pos);
    if d > ut.los_range {
        TileVisibility::No
    } else if d <= ut.cover_los_range {
        TileVisibility::Excellent
    } else if blocked {
        TileVisibility::Normal
    } else {
        terrain_visibility(terrain)
    }
}

/// How well a unit of type `ut` at `origin` sees the cell stored at index `i`.
pub open spec fn seen_at(map: Grid<Terrain>, sv: StateView, ut: UnitType, origin: MapPos, i: int) -> TileVisibility {
    let pos = cell_at(map.spec_size(), i);
    visibility(ut, origin, pos, map.cells()[i], occluded(sv.objects, pos))
}

/// `grid` with the sight of a unit of type `ut` at `origin` merged into the
/// cells of `cells`.
pub open spec fn swept(
    grid: Seq<TileVisibility>,
    map: Grid<Terrain>, sv: StateView,
    ut: UnitType,
    origin: MapPos,
    cells: Set<MapPos>,
) -> Seq<TileVisibility> {
    Seq::new(
        grid.len(),
        |i: int|
            if cells.contains(cell_at(map.spec_size(), i)) {
                vis_max(grid[i], seen_at(map, sv, ut, origin, i))
            } else {
                grid[i]
            },
    )
}

/// The two grids of a fog of war: ground layer and air layer.
pub struct FowView {
    pub ground: Seq<TileVisibility>,
    pub air: Seq<TileVisibility>,
}

/// Lists the cells that a unit sees from a cell.
pub trait FieldOfView {
    /// The cells that a unit with sight range `range` standing at `origin`
    /// sees, on the terrain of `map` among `objects`; `is_air` for a unit in
    /// the air.
    spec fn sight(
        &self,
        map: Grid<Terrain>,
        objects: Seq<Object>,
        origin: MapPos,
        range: i32,
        is_air: bool,
    ) -> Set<MapPos>;

    fn visible_cells(&self, state: &FullState, origin: MapPos, range: i32, is_air: bool) -> (r: Vec<
        MapPos,
    >)
        requires
            state.wf(),
        ensures
            forall|p: MapPos| #[trigger]
                r@.contains(p) <==> self.sight(state.spec_map(), state@.objects, origin, range, is_air).contains(p),
    ;
}

/// Sight that nothing blocks: every cell of the map within range.
#[derive(Clone, Copy, Debug)]
pub struct OpenSight;

impl FieldOfView for OpenSight {
    open spec fn sight(
        &self,
        map: Grid<Terrain>,
        objects: Seq<Object>,
        origin: MapPos,
        range: i32,
        is_air: bool,
    ) -> Set<MapPos> {
        Set::new(|p: MapPos| in_map(map.spec_size(), p) && hex_distance(origin, p) <= range)
    }

    fn visible_cells(&self, state: &FullState, origin: MapPos, range: i32, is_air: bool) -> (r: Vec<
        MapPos,
    >) {
        let map = state.map();
        let ghost size = map.spec_size();
        let n = map.len();
        let mut r: Vec<MapPos> = Vec::new();
        let mut i: usize = 0;
        while i < n
            invariant
                map.wf(),
                size == map.spec_size(),
                n == cell_count(size),
                i <= n,
                forall|p: MapPos| #[trigger]
                    r@.contains(p) <==> (listed_before(size, i as int, p) && hex_distance(origin, p)
                        <= range),
            decreases n - i,
        {
            let p = map.pos_at(i);
            let ghost old_r = r@;
            if distance(origin, p) <= range as i64 {
                r.push(p);
            }
            proof {
                assert forall|q: MapPos| #[trigger]
                    r@.contains(q) <==> (listed_before(size, i + 1, q) && hex_distance(origin, q)
                        <= range) by {
                    if listed_before(size, i + 1, q) && !listed_before(size, i as int, q) {
                        let j = choose|j: int| 0 <= j < i + 1 && cell_at(size, j) == q;
                        assert(j == i);
                    }
                    if q == p {
                        assert(listed_before(size, i + 1, q));
                    }
                    if r@.contains(q) && r@ != old_r {
                        let k = choose|k: int| 0 <= k < r@.len() && r@[k] == q;
                        if k < old_r.len() {
                            assert(old_r[k] == q);
                        }
                    }
                    if old_r.contains(q) {
                        let k = choose|k: int| 0 <= k < old_r.len() && old_r[k] == q;
                        assert(r@[k] == q);
                    }
                    if q == p && hex_distance(origin, q) <= range {
                        assert(r@[r@.len() - 1] == q);
                    }
                    if listed_before(size, i as int, q) {
                        let j = choose|j: int| 0 <= j < i && cell_at(size, j) == q;
                        assert(0 <= j < i + 1 && cell_at(size, j) == q);
                    }
                }
            }
            i += 1;
        }
        proof {
            assert forall|q: MapPos| listed_before(size, n as int, q) <==> in_map(size, q) by {
                if listed_before(size, n as int, q) {
                    let j = choose|j: int| 0 <= j < n && cell_at(size, j) == q;
                    lemma_cell_at(size, j);
                }
                if in_map(size, q) {
                    lemma_index_of_in_range(size, q);
                    lemma_index_of_inverse(size, q);
                    assert(cell_at(size, index_of(size, q)) == q);
                }
            }
        }
        r
    }
}

/// Whether `p` is one of the cells stored before index `k`.
pub open spec fn listed_before(size: Size2, k: int, p: MapPos) -> bool {
    exists|j: int| 0 <= j < k && cell_at(size, j) == p
}

/// The cells that `fov` lets a unit of type `ut` at `origin` see.
pub open spec fn sight_cells<V: FieldOfView>(
    fov: V,
    map: Grid<Terrain>,
    sv: StateView,
    ut: UnitType,
    origin: MapPos,
) -> Set<MapPos> {
    fov.sight(map, sv.objects, origin, ut.los_range, ut.is_air)
}

/// Merges the sight of a unit of type `ut` at `origin`, over the cells that
/// `fov` lists: into the ground grid always, and into the air grid too for
/// an air unit.
pub open spec fn sweep_view<V: FieldOfView>(
    v: FowView,
    map: Grid<Terrain>,
    sv: StateView,
    fov: V,
    ut: UnitType,
    origin: MapPos,
) -> FowView {
    let cells = sight_cells(fov, map, sv, ut, origin);
    FowView {
        ground: swept(v.ground, map, sv, ut, origin, cells),
        air: if ut.is_air {
            swept(v.air, map, sv, ut, origin, cells)
        } else {
            v.air
        },
    }
}

pub open spec fn cleared(n: nat) -> Seq<TileVisibility> {
    Seq::new(n, |i: int| TileVisibility::No)
}

/// Merges the sight of each living unit of `player` among `units`, in order.
pub open spec fn sweep_own<V: FieldOfView>(
    v: FowView,
    map: Grid<Terrain>, sv: StateView,
    db: Db,
    fov: V,
    player: PlayerId,
    units: Seq<Unit>,
) -> FowView
    decreases units.len(),
{
    if units.len() == 0 {
        v
    } else {
        let prev = sweep_own(v, map, sv, db, fov, player, units.drop_last());
        let u = units.last();
        if u.player_id == player && u.is_alive {
            sweep_view(prev, map, sv, fov, db.type_of(u.type_id), u.pos.map_pos)
        } else {
            prev
        }
    }
}

/// The grids recomputed from scratch: cleared, then every living unit of
/// `player` in `map, sv` swept in.
pub open spec fn reset_view<V: FieldOfView>(n: nat, map: Grid<Terrain>, sv: StateView, db: Db, fov: V, player: PlayerId) -> FowView {
    sweep_own(FowView { ground: cleared(n), air: cleared(n) }, map, sv, db, fov, player, sv.units)
}

/// Sweeps the sight of the unit with the given id, when it is a living unit
/// of `player`, from `origin`.
pub open spec fn sweep_unit_from<V: FieldOfView>(
    v: FowView,
    map: Grid<Terrain>, sv: StateView,
    db: Db,
    fov: V,
    player: PlayerId,
    unit_id: crate::types::UnitId,
    origin: MapPos,
) -> FowView {
    match find_key(sv.units, unit_id.id) {
        Some(u) => if u.player_id == player && u.is_alive {
            sweep_view(v, map, sv, fov, db.type_of(u.type_id), origin)
        } else {
            v
        },
        None => v,
    }
}

/// What an event does to the grids of `player`; `map, sv` is the state after the event.
pub open spec fn fow_next<V: FieldOfView>(
    v: FowView,
    size: Size2,
    map: Grid<Terrain>, sv: StateView,
    db: Db,
    fov: V,
    player: PlayerId,
    e: CoreEvent,
) -> FowView {
    match e {
        CoreEvent::Move { unit_id, to, .. } => sweep_unit_from(v, map, sv, db, fov, player, unit_id, to.map_pos),
        CoreEvent::EndTurn { new_id, .. } => if new_id == player {
            reset_view(v.ground.len(), map, sv, db, fov, player)
        } else {
            v
        },
        CoreEvent::CreateUnit { unit_info } => match find_key(sv.units, unit_info.unit_id.id) {
            Some(u) => if unit_info.player_id == player {
                sweep_unit_from(v, map, sv, db, fov, player, unit_info.unit_id, u.pos.map_pos)
            } else {
                v
            },
            None => v,
        },
        CoreEvent::AttackUnit { attack_info } => match attack_info.attacker_id {
            Some(a) => if attack_info.is_ambush {
                v
            } else {
                match find_key(sv.units, a.id) {
                    Some(u) => if in_map(size, u.pos.map_pos) {
                        FowView {
                            ground: v.ground.update(
                                index_of(size, u.pos.map_pos),
                                TileVisibility::Excellent,
                            ),
                            air: v.air,
                        }
                    } else {
                        v
                    },
                    None => v,
                }
            },
            None => v,
        },
        CoreEvent::UnloadUnit { unit_info, .. } => if unit_info.player_id == player {
            sweep_unit_from(v, map, sv, db, fov, player, unit_info.unit_id, unit_info.pos.map_pos)
        } else {
            v
        },
        CoreEvent::Reveal { .. }
        | CoreEvent::ShowUnit { .. }
        | CoreEvent::HideUnit { .. }
        | CoreEvent::LoadUnit { .. }
        | CoreEvent::Attach { .. }
        | CoreEvent::Detach { .. }
        | CoreEvent::SetReactionFireMode { .. }
        | CoreEvent::SectorOwnerChanged { .. }
        | CoreEvent::Smoke { .. }
        | CoreEvent::RemoveSmoke { .. }
        | CoreEvent::VictoryPoint { .. } => v,
    }
}

/// Whether the units that the fog of war looks up for an event are in
/// `units` (the state after the event), and a disclosed attacker stands on
/// the map.
pub open spec fn event_units_known(size: Size2, units: Seq<Unit>, e: CoreEvent) -> bool {
    match e {
        CoreEvent::Move { unit_id, .. } => has_key(units, unit_id.id),
        CoreEvent::CreateUnit { unit_info } => has_key(units, unit_info.unit_id.id),
        CoreEvent::UnloadUnit { unit_info, .. } => has_key(units, unit_info.unit_id.id),
        CoreEvent::AttackUnit { attack_info } => attacker_known(size, units, attack_info),
        _ => true,
    }
}

pub open spec fn attacker_known(size: Size2, units: Seq<Unit>, attack_info: crate::types::AttackInfo) -> bool {
    match attack_info.attacker_id {
        Some(a) => attack_info.is_ambush || (find_key(units, a.id) matches Some(u) && in_map(
            size,
            u.pos.map_pos,
        )),
        None => true,
    }
}

pub open spec fn is_infantry(db: Db, unit: Unit) -> bool {
    db.has_type(unit.type_id) && db.type_of(unit.type_id).is_infantry
}

/// Whether a unit at `pos` can be seen through grids `v` of size `size`.
pub open spec fn unit_visible(v: FowView, size: Size2, db: Db, unit: Unit, pos: ExactPos) -> bool {
    if spec_is_passenger_or_attached(unit) || !in_map(size, pos.map_pos) {
        false
    } else if pos.slot_id == SlotId::Air {
        v.air[index_of(size, pos.map_pos)] != TileVisibility::No
    } else {
        match v.ground[index_of(size, pos.map_pos)] {
            TileVisibility::Excellent => true,
            TileVisibility::Normal => !is_infantry(db, unit),
            TileVisibility::No => false,
        }
    }
}

/// How well a unit of type `unit_type` at `origin` sees the cell `pos`.
pub fn calc_visibility(
    state: &FullState,
    unit_type: &UnitType,
    origin: MapPos,
    pos: MapPos,
) -> (r: TileVisibility)
    requires
        state.wf(),
        in_map(state.spec_map().spec_size(), pos),
    ensures
        r == visibility(
            *unit_type,
            origin,
            pos,
            state.spec_map().spec_tile(pos),
            occluded(state@.objects, pos),
        ),
{
    let d = distance(origin, pos);
    if d > unit_type.los_range as i64 {
        return TileVisibility::No;
    }
    if d <= unit_type.cover_los_range as i64 {
        return TileVisibility::Excellent;
    }
    if state.is_occluded(pos) {
        return TileVisibility::Normal;
    }
    match state.map().tile(pos) {
        Terrain::City | Terrain::Trees => TileVisibility::Normal,
        Terrain::Plain | Terrain::Water => TileVisibility::Excellent,
    }
}

/// Whether `p` is among the first `k` cells of `cells`.
pub open spec fn covered(cells: Seq<MapPos>, k: int, p: MapPos) -> bool {
    exists|j: int| 0 <= j < k && cells[j] == p
}

/// Merges into `grid` the sight of a unit of type `unit_type` at `origin`
/// over the listed cells, keeping the better value; `seen` is the set of
/// those cells. Cells outside the map are passed over.
fn sweep(
    grid: &mut Grid<TileVisibility>,
    state: &FullState,
    unit_type: &UnitType,
    origin: MapPos,
    cells: &Vec<MapPos>,
    Ghost(seen): Ghost<Set<MapPos>>,
)
    requires
        old(grid).wf(),
        state.wf(),
        old(grid).spec_size() == state.spec_map().spec_size(),
        forall|p: MapPos| #[trigger] cells@.contains(p) <==> seen.contains(p),
    ensures
        final(grid).wf(),
        final(grid).spec_size() == old(grid).spec_size(),
        final(grid).cells() == swept(
            old(grid).cells(),
            state.spec_map(),
            state@,
            *unit_type,
            origin,
            seen,
        ),
{
    let ghost start = grid.cells();
    let ghost size = grid.spec_size();
    let ghost n = start.len();
    let mut k: usize = 0;
    while k < cells.len()
        invariant
            grid.wf(),
            grid.spec_size() == size,
            size == state.spec_map().spec_size(),
            state.wf(),
            n == start.len(),
            n == cell_count(size),
            grid.cells().len() == n,
            k <= cells@.len(),
            forall|i: int|
                0 <= i < n ==> grid.cells()[i] == if covered(cells@, k as int, cell_at(size, i)) {
                    vis_max(#[trigger] start[i], seen_at(state.spec_map(), state@, *unit_type, origin, i))
                } else {
                    start[i]
                },
        decreases cells@.len() - k,
    {
        let p = cells[k];
        let ghost before_grid = grid.cells();
        if grid.contains(p) {
            let before = grid.tile(p);
            let vis = calc_visibility(state, unit_type, origin, p);
            if vis > before {
                grid.set_tile(p, vis);
            }
            proof {
                lemma_index_of_in_range(size, p);
                lemma_index_of_inverse(size, p);
            }
        }
        proof {
            assert forall|i: int| 0 <= i < n implies grid.cells()[i] == if covered(
                cells@,
                k + 1,
                cell_at(size, i),
            ) {
                vis_max(#[trigger] start[i], seen_at(state.spec_map(), state@, *unit_type, origin, i))
            } else {
                start[i]
            } by {
                lemma_cell_at(size, i);
                if covered(cells@, k + 1, cell_at(size, i)) && !covered(cells@, k as int, cell_at(size, i)) {
                    let j = choose|j: int| 0 <= j < k + 1 && cells@[j] == cell_at(size, i);
                    assert(j == k);
                }
                if cell_at(size, i) == p {
                    assert(covered(cells@, k + 1, cell_at(size, i)));
                    assert(index_of(size, p) == i);
                }
                if covered(cells@, k as int, cell_at(size, i)) {
                    let j = choose|j: int| 0 <= j < k && cells@[j] == cell_at(size, i);
                    assert(0 <= j < k + 1 && cells@[j] == cell_at(size, i));
                }
            }
        }
        k += 1;
    }
    proof {
        assert forall|q: MapPos| covered(cells@, cells@.len() as int, q) <==> seen.contains(q) by {
            if covered(cells@, cells@.len() as int, q) {
                let j = choose|j: int| 0 <= j < cells@.len() && cells@[j] == q;
                assert(cells@.contains(q));
            }
            if seen.contains(q) {
                assert(cells@.contains(q));
            }
        }
    }
    assert(grid.cells() =~= swept(start, state.spec_map(), state@, *unit_type, origin, seen));
}

/// The fog of war of one player.
pub struct Fow {
    map: Grid<TileVisibility>,
    air_map: Grid<TileVisibility>,
    player_id: PlayerId,
    db: Rc<Db>,
}

impl View for Fow {
    type V = FowView;

    closed spec fn view(&self) -> FowView {
        FowView { ground: self.map.cells(), air: self.air_map.cells() }
    }
}

impl Fow {
    pub closed spec fn spec_size(&self) -> Size2 {
        self.map.spec_size()
    }

    pub closed spec fn spec_player(&self) -> PlayerId {
        self.player_id
    }

    pub closed spec fn spec_db(&self) -> Db {
        *self.db
    }

    pub closed spec fn layers_ok(&self) -> bool {
        self.map.wf() && self.air_map.wf() && self.air_map.spec_size() == self.map.spec_size()
    }

    pub open spec fn wf(&self) -> bool {
        &&& size_ok(self.spec_size())
        &&& self@.ground.len() == cell_count(self.spec_size())
        &&& self@.air.len() == cell_count(self.spec_size())
        &&& self.layers_ok()
    }

    /// Whether `state` can drive this fog of war: same map size, same database.
    pub open spec fn fits(&self, state: FullState) -> bool {
        &&& state.wf()
        &&& state.spec_map().spec_size() == self.spec_size()
        &&& state.spec_db() == self.spec_db()
    }

    /// A fog of war for `player_id` on a map of `map_size` where nothing is seen yet.
    pub fn new(db: Rc<Db>, map_size: Size2, player_id: PlayerId) -> (r: Fow)
        requires
            size_ok(map_size),
            cell_count(map_size) <= usize::MAX,
        ensures
            r.wf(),
            r.spec_size() == map_size,
            r.spec_player() == player_id,
            r.spec_db() == *db,
            r@.ground == cleared(cell_count(map_size) as nat),
            r@.air == cleared(cell_count(map_size) as nat),
    {
        let map = Grid::new(map_size, TileVisibility::No);
        let air_map = Grid::new(map_size, TileVisibility::No);
        Fow { map, air_map, player_id, db }
    }

    pub fn player_id(&self) -> (r: PlayerId)
        ensures
            r == self.spec_player(),
    {
        self.player_id
    }

    /// Whether the ground of the cell `pos` is seen at all; no cell outside the map is.
    pub fn is_tile_visible(&self, pos: MapPos) -> (r: bool)
        requires
            self.wf(),
        ensures
            r == (in_map(self.spec_size(), pos) && self@.ground[index_of(self.spec_size(), pos)]
                != TileVisibility::No),
    {
        if !self.map.contains(pos) {
            return false;
        }
        match self.map.tile(pos) {
            TileVisibility::Excellent | TileVisibility::Normal => true,
            TileVisibility::No => false,
        }
    }

    /// The ground visibility of a cell of the map.
    pub fn ground_tile(&self, pos: MapPos) -> (r: TileVisibility)
        requires
            self.wf(),
            in_map(self.spec_size(), pos),
        ensures
            r == self@.ground[index_of(self.spec_size(), pos)],
    {
        self.map.tile(pos)
    }

    /// The air visibility of a cell of the map.
    pub fn air_tile(&self, pos: MapPos) -> (r: TileVisibility)
        requires
            self.wf(),
            in_map(self.spec_size(), pos),
        ensures
            r == self@.air[index_of(self.spec_size(), pos)],
    {
        self.air_map.tile(pos)
    }

    /// Whether `unit`, standing at `pos`, is seen. A carried unit never is,
    /// nor a unit outside the map; infantry needs an excellent view of its cell.
    pub fn is_visible(&self, unit: &Unit, pos: ExactPos) -> (r: bool)
        requires
            self.wf(),
        ensures
            r == unit_visible(self@, self.spec_size(), self.spec_db(), *unit, pos),
    {
        if is_passenger_or_attached(unit) || !self.map.contains(pos.map_pos) {
            false
        } else if pos.slot_id == SlotId::Air {
            self.air_map.tile(pos.map_pos) != TileVisibility::No
        } else {
            let infantry = unit.type_id.id < self.db.unit_types.len()
                && self.db.unit_type(unit.type_id).is_infantry;
            match self.map.tile(pos.map_pos) {
                TileVisibility::Excellent => true,
                TileVisibility::Normal => !infantry,
                TileVisibility::No => false,
            }
        }
    }

    fn clear(&mut self)
        requires
            old(self).wf(),
        ensures
            final(self).wf(),
            final(self).spec_size() == old(self).spec_size(),
            final(self).spec_player() == old(self).spec_player(),
            final(self).spec_db() == old(self).spec_db(),
            final(self)@ == (FowView {
                ground: cleared(cell_count(old(self).spec_size()) as nat),
                air: cleared(cell_count(old(self).spec_size()) as nat),
            }),
    {
        self.map.fill(TileVisibility::No);
        self.air_map.fill(TileVisibility::No);
    }

    /// Merges the sight of `unit` as if it stood at `origin`.
    fn fov_unit_in_pos<V: FieldOfView>(&mut self, state: &FullState, unit: &Unit, origin: MapPos, fov: &V)
        requires
            unit.is_alive,
            old(self).wf(),
            old(self).fits(*state),
            old(self).spec_db().has_type(unit.type_id),
        ensures
            final(self).wf(),
            final(self).spec_size() == old(self).spec_size(),
            final(self).spec_player() == old(self).spec_player(),
            final(self).spec_db() == old(self).spec_db(),
            final(self)@ == sweep_view(
                old(self)@,
                state.spec_map(),
                state@,
                *fov,
                old(self).spec_db().type_of(unit.type_id),
                origin,
            ),
    {
        let unit_type = self.db.unit_type(unit.type_id);
        let cells = fov.visible_cells(state, origin, unit_type.los_range, unit_type.is_air);
        let ghost seen = sight_cells(*fov, state.spec_map(), state@, unit_type, origin);
        sweep(&mut self.map, state, &unit_type, origin, &cells, Ghost(seen));
        if unit_type.is_air {
            sweep(&mut self.air_map, state, &unit_type, origin, &cells, Ghost(seen));
        }
    }

    /// Merges the sight of the unit `unit_id` from `origin`, when it is a
    /// living unit of this player.
    fn fov_unit_by_id<V: FieldOfView>(
        &mut self,
        state: &FullState,
        unit_id: crate::types::UnitId,
        origin: MapPos,
        fov: &V,
    )
        requires
            old(self).wf(),
            old(self).fits(*state),
        ensures
            final(self).wf(),
            final(self).spec_size() == old(self).spec_size(),
            final(self).spec_player() == old(self).spec_player(),
            final(self).spec_db() == old(self).spec_db(),
            final(self)@ == sweep_unit_from(
                old(self)@,
                state.spec_map(),
                state@,
                old(self).spec_db(),
                *fov,
                old(self).spec_player(),
                unit_id,
                origin,
            ),
    {
        match state.unit_opt(unit_id) {
            Some(unit) => {
                if unit.player_id == self.player_id && unit.is_alive {
                    proof {
                        let units = state@.units;
                        let k = crate::keyed::key_index(units, unit_id.id);
                        assert(units[k].spec_key() == unit_id.id);
                    }
                    self.fov_unit_in_pos(state, &unit, origin, fov);
                }
            },
            None => {},
        }
    }

    /// Recomputes both grids from every living unit of this player.
    fn reset<V: FieldOfView>(&mut self, state: &FullState, fov: &V)
        requires
            old(self).wf(),
            old(self).fits(*state),
        ensures
            final(self).wf(),
            final(self).spec_size() == old(self).spec_size(),
            final(self).spec_player() == old(self).spec_player(),
            final(self).spec_db() == old(self).spec_db(),
            final(self)@ == reset_view(
                old(self)@.ground.len(),
                state.spec_map(),
                state@,
                old(self).spec_db(),
                *fov,
                old(self).spec_player(),
            ),
    {
        self.clear();
        let ghost start = self@;
        let ghost db = self.spec_db();
        let ghost player = self.spec_player();
        let units = state.units();
        let mut i: usize = 0;
        while i < units.len()
            invariant
                self.wf(),
                self.fits(*state),
                self.spec_db() == db,
                self.spec_player() == player,
                units@ == state@.units,
                i <= units@.len(),
                self@ == sweep_own(start, state.spec_map(), state@, db, *fov, player, units@.subrange(0, i as int)),
            decreases units@.len() - i,
        {
            let unit = units[i];
            proof {
                let s1 = units@.subrange(0, i + 1);
                assert(s1.drop_last() =~= units@.subrange(0, i as int));
                assert(s1.last() == unit);
            }
            if unit.player_id == self.player_id && unit.is_alive {
                self.fov_unit_in_pos(state, &unit, unit.pos.map_pos, fov);
            }
            i += 1;
        }
        assert(units@.subrange(0, units@.len() as int) =~= units@);
    }

    /// Brings the grids up to date with one event; `state` is the
    /// authoritative state with the event already applied, which must hold
    /// the units that the event names.
    pub fn apply_event<V: FieldOfView>(&mut self, state: &FullState, event: &CoreEvent, fov: &V)
        requires
            old(self).wf(),
            old(self).fits(*state),
            event_units_known(old(self).spec_size(), state@.units, *event),
        ensures
            final(self).wf(),
            final(self).spec_size() == old(self).spec_size(),
            final(self).spec_player() == old(self).spec_player(),
            final(self).spec_db() == old(self).spec_db(),
            final(self)@ == fow_next(
                old(self)@,
                old(self).spec_size(),
                state.spec_map(),
                state@,
                old(self).spec_db(),
                *fov,
                old(self).spec_player(),
                *event,
            ),
    {
        match *event {
            CoreEvent::Move { unit_id, to, .. } => {
                self.fov_unit_by_id(state, unit_id, to.map_pos, fov);
            },
            CoreEvent::EndTurn { new_id, .. } => {
                if self.player_id == new_id {
                    self.reset(state, fov);
                }
            },
            CoreEvent::CreateUnit { unit_info } => {
                match state.unit_opt(unit_info.unit_id) {
                    Some(unit) => {
                        if self.player_id == unit_info.player_id {
                            self.fov_unit_by_id(state, unit_info.unit_id, unit.pos.map_pos, fov);
                        }
                    },
                    None => {},
                }
            },
            CoreEvent::AttackUnit { attack_info } => {
                if let Some(attacker_id) = attack_info.attacker_id {
                    if !attack_info.is_ambush {
                        if let Some(attacker) = state.unit_opt(attacker_id) {
                            let pos = attacker.pos.map_pos;
                            if self.map.contains(pos) {
                                self.map.set_tile(pos, TileVisibility::Excellent);
                            }
                        }
                    }
                }
            },
            CoreEvent::UnloadUnit { unit_info, .. } => {
                if self.player_id == unit_info.player_id {
                    self.fov_unit_by_id(state, unit_info.unit_id, unit_info.pos.map_pos, fov);
                }
            },
            CoreEvent::Reveal { .. }
            | CoreEvent::ShowUnit { .. }
            | CoreEvent::HideUnit { .. }
            | CoreEvent::LoadUnit { .. }
            | CoreEvent::Attach { .. }
            | CoreEvent::Detach { .. }
            | CoreEvent::SetReactionFireMode { .. }
            | CoreEvent::SectorOwnerChanged { .. }
            | CoreEvent::Smoke { .. }
            | CoreEvent::RemoveSmoke { .. }
            | CoreEvent::VictoryPoint { .. } => {},
        }
    }
}

/// A filter that decides which units a player sees.
pub trait FogOfWar {
    /// Whether the filter is in a usable state.
    spec fn ready(&self) -> bool;

    spec fn spec_is_visible(&self, unit: Unit, pos: ExactPos) -> bool;

    fn is_visible(&self, unit: &Unit, pos: ExactPos) -> (r: bool)
        requires
            self.ready(),
        ensures
            r == self.spec_is_visible(*unit, pos),
    ;
}

impl FogOfWar for Fow {
    open spec fn ready(&self) -> bool {
        self.wf()
    }

    open spec fn spec_is_visible(&self, unit: Unit, pos: ExactPos) -> bool {
        unit_visible(self@, self.spec_size(), self.spec_db(), unit, pos)
    }

    fn is_visible(&self, unit: &Unit, pos: ExactPos) -> (r: bool) {
        Fow::is_visible(self, unit, pos)
    }
}

/// A filter that hides nothing.
#[derive(Clone, Copy, Debug)]
pub struct FakeFow;

pub fn fake_fow() -> (r: FakeFow) {
    FakeFow
}

impl FogOfWar for FakeFow {
    open spec fn ready(&self) -> bool {
        true
    }

    open spec fn spec_is_visible(&self, unit: Unit, pos: ExactPos) -> bool {
        true
    }

    fn is_visible(&self, unit: &Unit, pos: ExactPos) -> (r: bool) {
        true
    }
}

/// Merging one more unit's sight into a grid never lowers any cell.
pub proof fn lemma_sweep_never_lowers(
    grid: Seq<TileVisibility>,
    map: Grid<Terrain>,
    sv: StateView,
    ut: UnitType,
    origin: MapPos,
    cells: Set<MapPos>,
)
    ensures
        swept(grid, map, sv, ut, origin, cells).len() == grid.len(),
        forall|i: int|
            0 <= i < grid.len() ==> rank(#[trigger] grid[i]) <= rank(
                swept(grid, map, sv, ut, origin, cells)[i],
            ),
{
}

/// Every event but the start of the player's own turn only adds to what the
/// player sees: no cell of either grid is lowered.
pub proof fn lemma_event_never_lowers<V: FieldOfView>(
    v: FowView,
    size: Size2,
    map: Grid<Terrain>,
    sv: StateView,
    db: Db,
    fov: V,
    player: PlayerId,
    e: CoreEvent,
)
    requires
        v.ground.len() == cell_count(size),
        size_ok(size),
        !(e matches CoreEvent::EndTurn { new_id, .. } && new_id == player),
    ensures
        fow_next(v, size, map, sv, db, fov, player, e).ground.len() == v.ground.len(),
        fow_next(v, size, map, sv, db, fov, player, e).air.len() == v.air.len(),
        forall|i: int|
            0 <= i < v.ground.len() ==> rank(#[trigger] v.ground[i]) <= rank(
                fow_next(v, size, map, sv, db, fov, player, e).ground[i],
            ),
        forall|i: int|
            0 <= i < v.air.len() ==> rank(#[trigger] v.air[i]) <= rank(
                fow_next(v, size, map, sv, db, fov, player, e).air[i],
            ),
{
    if let CoreEvent::AttackUnit { attack_info } = e {
        if let Some(a) = attack_info.attacker_id {
            if let Some(u) = find_key(sv.units, a.id) {
                if in_map(size, u.pos.map_pos) {
                    crate::map::lemma_index_of_in_range(size, u.pos.map_pos);
                }
            }
        }
    }
}

pub proof fn lemma_sweep_own_len<V: FieldOfView>(
    v: FowView,
    map: Grid<Terrain>,
    sv: StateView,
    db: Db,
    fov: V,
    player: PlayerId,
    units: Seq<Unit>,
)
    ensures
        sweep_own(v, map, sv, db, fov, player, units).ground.len() == v.ground.len(),
        sweep_own(v, map, sv, db, fov, player, units).air.len() == v.air.len(),
    decreases units.len(),
{
    if units.len() > 0 {
        lemma_sweep_own_len(v, map, sv, db, fov, player, units.drop_last());
    }
}

/// Starting the player's turn twice in a row, with nothing in between, gives
/// the same grids as starting it once.
pub proof fn lemma_reset_idempotent<V: FieldOfView>(
    v: FowView,
    size: Size2,
    map: Grid<Terrain>,
    sv: StateView,
    db: Db,
    fov: V,
    player: PlayerId,
    old_id: PlayerId,
)
    ensures
        ({
            let e = CoreEvent::EndTurn { old_id: old_id, new_id: player };
            let once = fow_next(v, size, map, sv, db, fov, player, e);
            let sv2 = crate::state::next_view(db, sv, e);
            sv2 == sv && fow_next(once, size, map, sv2, db, fov, player, e) == once
        }),
{
    let e = CoreEvent::EndTurn { old_id: old_id, new_id: player };
    let n = v.ground.len();
    lemma_sweep_own_len(FowView { ground: cleared(n), air: cleared(n) }, map, sv, db, fov, player, sv.units);
}

/// In a cell that the player sees only partly, infantry stays hidden while
/// any other uncarried unit is seen.
pub proof fn lemma_infantry_hides_in_partial_view(
    v: FowView,
    size: Size2,
    db: Db,
    infantry: Unit,
    other: Unit,
    pos: ExactPos,
)
    requires
        in_map(size, pos.map_pos),
        pos.slot_id != SlotId::Air,
        v.ground[index_of(size, pos.map_pos)] == TileVisibility::Normal,
        is_infantry(db, infantry),
        !is_infantry(db, other),
        !spec_is_passenger_or_attached(other),
    ensures
        !unit_visible(v, size, db, infantry, pos),
        unit_visible(v, size, db, other, pos),
{
}

/// A unit carried by another one is never seen, whatever the grids hold.
pub proof fn lemma_carried_never_visible(
    v: FowView,
    size: Size2,
    db: Db,
    unit: Unit,
    pos: ExactPos,
)
    requires
        spec_is_passenger_or_attached(unit),
    ensures
        !unit_visible(v, size, db, unit, pos),
{
}

/// An ambush does not give the attacker's cell away; an attack that is no
/// ambush shows the attacker's cell fully.
pub proof fn lemma_attack_reveals_unless_ambush<V: FieldOfView>(
    v: FowView,
    size: Size2,
    map: Grid<Terrain>,
    sv: StateView,
    db: Db,
    fov: V,
    player: PlayerId,
    attack_info: crate::types::AttackInfo,
)
    requires
        size_ok(size),
        v.ground.len() == cell_count(size),
    ensures
        attack_info.is_ambush ==> fow_next(
            v,
            size,
            map,
            sv,
            db,
            fov,
            player,
            CoreEvent::AttackUnit { attack_info },
        ) == v,
        !attack_info.is_ambush ==> (attack_info.attacker_id matches Some(a) ==> (
        find_key(sv.units, a.id) matches Some(u) ==> (in_map(size, u.pos.map_pos) ==> ({
            let next = fow_next(v, size, map, sv, db, fov, player, CoreEvent::AttackUnit { attack_info });
            let c = index_of(size, u.pos.map_pos);
            &&& 0 <= c < v.ground.len()
            &&& next.ground[c] == TileVisibility::Excellent
            &&& next.ground == v.ground.update(c, TileVisibility::Excellent)
            &&& next.air == v.air
        })))),
{
    if let Some(a) = attack_info.attacker_id {
        if let Some(u) = find_key(sv.units, a.id) {
            if in_map(size, u.pos.map_pos) {
                crate::map::lemma_index_of_in_range(size, u.pos.map_pos);
            }
        }
    }
}

/// Whether a unit's sight counts for `player`: it is one of the player's
/// living units.
pub open spec fn counts_for(player: PlayerId, u: Unit) -> bool {
    u.player_id == player && u.is_alive
}

/// Whether `fov` lets unit `u` see the cell stored at index `i` from where it stands.
pub open spec fn sees_cell<V: FieldOfView>(
    fov: V,
    map: Grid<Terrain>,
    sv: StateView,
    db: Db,
    u: Unit,
    i: int,
) -> bool {
    sight_cells(fov, map, sv, db.type_of(u.type_id), u.pos.map_pos).contains(
        cell_at(map.spec_size(), i),
    )
}

/// How well unit `u` sees the cell stored at index `i` from where it stands.
pub open spec fn unit_sight(map: Grid<Terrain>, sv: StateView, db: Db, u: Unit, i: int) -> TileVisibility {
    seen_at(map, sv, db.type_of(u.type_id), u.pos.map_pos, i)
}

proof fn lemma_sweep_own_cell<V: FieldOfView>(
    v: FowView,
    map: Grid<Terrain>,
    sv: StateView,
    db: Db,
    fov: V,
    player: PlayerId,
    units: Seq<Unit>,
    i: int,
)
    requires
        0 <= i < v.ground.len(),
        v.ground[i] == TileVisibility::No,
    ensures
        ({
            let g = sweep_own(v, map, sv, db, fov, player, units).ground;
            &&& g.len() == v.ground.len()
            &&& forall|k: int|
                0 <= k < units.len() && counts_for(player, #[trigger] units[k]) && sees_cell(fov, map, sv, db, units[k], i) ==> rank(
                    unit_sight(map, sv, db, units[k], i),
                ) <= rank(g[i])
            &&& g[i] == TileVisibility::No || exists|k: int|
                0 <= k < units.len() && counts_for(player, #[trigger] units[k]) && sees_cell(fov, map, sv, db, units[k], i) && g[i]
                    == unit_sight(map, sv, db, units[k], i)
        }),
    decreases units.len(),
{
    lemma_sweep_own_len(v, map, sv, db, fov, player, units);
    if units.len() > 0 {
        let rest = units.drop_last();
        lemma_sweep_own_cell(v, map, sv, db, fov, player, rest, i);
        let prev = sweep_own(v, map, sv, db, fov, player, rest).ground;
        let g = sweep_own(v, map, sv, db, fov, player, units).ground;
        let last = units.len() - 1;
        assert forall|k: int|
            0 <= k < units.len() && counts_for(player, #[trigger] units[k]) && sees_cell(fov, map, sv, db, units[k], i) implies rank(
                unit_sight(map, sv, db, units[k], i),
            ) <= rank(g[i]) by {
            if k < last {
                assert(rest[k] == units[k]);
            }
        }
        if g[i] != TileVisibility::No {
            if g[i] == prev[i] {
                let k = choose|k: int|
                    0 <= k < rest.len() && counts_for(player, #[trigger] rest[k]) && sees_cell(fov, map, sv, db, rest[k], i) && prev[i]
                        == unit_sight(map, sv, db, rest[k], i);
                assert(units[k] == rest[k]);
            } else {
                assert(counts_for(player, units[last]));
                assert(sees_cell(fov, map, sv, db, units[last], i));
                assert(g[i] == unit_sight(map, sv, db, units[last], i));
            }
        }
    }
}

/// After the player's grids are recomputed, each ground cell holds the best
/// view of it among the player's living units whose field of view reaches it:
/// no worse than any of them, and either unseen or seen exactly as one of
/// them sees it.
pub proof fn lemma_reset_is_best_own_view<V: FieldOfView>(
    n: nat,
    map: Grid<Terrain>,
    sv: StateView,
    db: Db,
    fov: V,
    player: PlayerId,
    i: int,
)
    requires
        0 <= i < n,
    ensures
        ({
            let g = reset_view(n, map, sv, db, fov, player).ground;
            &&& forall|k: int|
                0 <= k < sv.units.len() && counts_for(player, #[trigger] sv.units[k]) && sees_cell(fov, map, sv, db, sv.units[k], i) ==> rank(
                    unit_sight(map, sv, db, sv.units[k], i),
                ) <= rank(g[i])
            &&& g[i] == TileVisibility::No || exists|k: int|
                0 <= k < sv.units.len() && counts_for(player, #[trigger] sv.units[k]) && sees_cell(fov, map, sv, db, sv.units[k], i) && g[i]
                    == unit_sight(map, sv, db, sv.units[k], i)
        }),
{
    lemma_sweep_own_cell(
        FowView { ground: cleared(n), air: cleared(n) },
        map,
        sv,
        db,
        fov,
        player,
        sv.units,
        i,
    );
}

/// Whether `u` is an air unit.
pub open spec fn is_air_unit(db: Db, u: Unit) -> bool {
    db.type_of(u.type_id).is_air
}

proof fn lemma_sweep_own_air_cell<V: FieldOfView>(
    v: FowView,
    map: Grid<Terrain>,
    sv: StateView,
    db: Db,
    fov: V,
    player: PlayerId,
    units: Seq<Unit>,
    i: int,
)
    requires
        0 <= i < v.air.len(),
        v.air[i] == TileVisibility::No,
    ensures
        ({
            let g = sweep_own(v, map, sv, db, fov, player, units).air;
            &&& g.len() == v.air.len()
            &&& forall|k: int|
                0 <= k < units.len() && counts_for(player, #[trigger] units[k]) && sees_cell(fov, map, sv, db, units[k], i) && is_air_unit(db, units[k]) ==> rank(
                    unit_sight(map, sv, db, units[k], i),
                ) <= rank(g[i])
            &&& g[i] == TileVisibility::No || exists|k: int|
                0 <= k < units.len() && counts_for(player, #[trigger] units[k]) && sees_cell(fov, map, sv, db, units[k], i) && is_air_unit(db, units[k]) && g[i]
                    == unit_sight(map, sv, db, units[k], i)
        }),
    decreases units.len(),
{
    lemma_sweep_own_len(v, map, sv, db, fov, player, units);
    if units.len() > 0 {
        let rest = units.drop_last();
        lemma_sweep_own_air_cell(v, map, sv, db, fov, player, rest, i);
        let prev = sweep_own(v, map, sv, db, fov, player, rest).air;
        let g = sweep_own(v, map, sv, db, fov, player, units).air;
        let last = units.len() - 1;
        assert forall|k: int|
            0 <= k < units.len() && counts_for(player, #[trigger] units[k]) && sees_cell(fov, map, sv, db, units[k], i) && is_air_unit(db, units[k]) implies rank(
                unit_sight(map, sv, db, units[k], i),
            ) <= rank(g[i]) by {
            if k < last {
                assert(rest[k] == units[k]);
            }
        }
        if g[i] != TileVisibility::No {
            if g[i] == prev[i] {
                let k = choose|k: int|
                    0 <= k < rest.len() && counts_for(player, #[trigger] rest[k]) && sees_cell(fov, map, sv, db, rest[k], i) && is_air_unit(db, rest[k]) && prev[i]
                        == unit_sight(map, sv, db, rest[k], i);
                assert(units[k] == rest[k]);
            } else {
                assert(counts_for(player, units[last]));
                assert(sees_cell(fov, map, sv, db, units[last], i) && is_air_unit(db, units[last]));
                assert(g[i] == unit_sight(map, sv, db, units[last], i));
            }
        }
    }
}

/// After the player's grids are recomputed, each air cell holds the best view
/// of it among the player's living air units whose field of view reaches it:
/// no worse than any of them, and either unseen or seen exactly as one of
/// them sees it.
pub proof fn lemma_reset_is_best_own_air_view<V: FieldOfView>(
    n: nat,
    map: Grid<Terrain>,
    sv: StateView,
    db: Db,
    fov: V,
    player: PlayerId,
    i: int,
)
    requires
        0 <= i < n,
    ensures
        ({
            let g = reset_view(n, map, sv, db, fov, player).air;
            &&& forall|k: int|
                0 <= k < sv.units.len() && counts_for(player, #[trigger] sv.units[k]) && sees_cell(fov, map, sv, db, sv.units[k], i) && is_air_unit(db, sv.units[k]) ==> rank(
                    unit_sight(map, sv, db, sv.units[k], i),
                ) <= rank(g[i])
            &&& g[i] == TileVisibility::No || exists|k: int|
                0 <= k < sv.units.len() && counts_for(player, #[trigger] sv.units[k]) && sees_cell(fov, map, sv, db, sv.units[k], i) && is_air_unit(db, sv.units[k]) && g[i]
                    == unit_sight(map, sv, db, sv.units[k], i)
        }),
{
    lemma_sweep_own_air_cell(
        FowView { ground: cleared(n), air: cleared(n) },
        map,
        sv,
        db,
        fov,
        player,
        sv.units,
        i,
    );
}

/// Whether the units that an event names are in `units`, the state before
/// the event, as the fog of war will need them after it.
pub open spec fn event_units_ready(size: Size2, units: Seq<Unit>, e: CoreEvent) -> bool {
    match e {
        CoreEvent::Move { unit_id, .. } => has_key(units, unit_id.id),
        CoreEvent::UnloadUnit { unit_info, .. } => has_key(units, unit_info.unit_id.id),
        CoreEvent::AttackUnit { attack_info } => attacker_known(size, units, attack_info),
        _ => true,
    }
}

/// Units that an event finds before it are still there after it, where the
/// fog of war looks for them; a created unit is there after its creation.
pub proof fn lemma_units_known_after(db: Db, size: Size2, v: StateView, e: CoreEvent)
    requires
        view_wf(db, v),
        event_ok(db, e),
        event_units_ready(size, v.units, e),
    ensures
        event_units_known(size, next_view(db, v, e).units, e),
{
    lemma_next_view_wf(db, v, e);
    let post = next_view(db, v, e).units;
    match e {
        CoreEvent::Move { unit_id, .. } => {
            let k = key_index(v.units, unit_id.id);
            lemma_edited_unit_keeps(e, key_unit(v.units, e), v.units[k]);
            assert(post[k].spec_key() == unit_id.id);
        },
        CoreEvent::UnloadUnit { unit_info, .. } => {
            let k = key_index(v.units, unit_info.unit_id.id);
            lemma_edited_unit_keeps(e, key_unit(v.units, e), v.units[k]);
            assert(post[k].spec_key() == unit_info.unit_id.id);
        },
        CoreEvent::CreateUnit { unit_info } => {
            lemma_put_key_unique(v.units, new_unit(db, unit_info));
        },
        CoreEvent::AttackUnit { attack_info } => {
            if let Some(a) = attack_info.attacker_id {
                if !attack_info.is_ambush {
                    let k = key_index(v.units, a.id);
                    lemma_edited_unit_keeps(e, None, v.units[k]);
                    assert(post[k] == edited_unit(e, None, v.units[k]));
                    assert(post[k].pos == v.units[k].pos);
                    lemma_key_index(post, k);
                }
            }
        },
        _ => {},
    }
}

/// Sweeping the sight of one more unit in after the others never lowers a
/// cell of either grid.
pub proof fn lemma_one_more_unit_never_lowers<V: FieldOfView>(
    v: FowView,
    map: Grid<Terrain>,
    sv: StateView,
    db: Db,
    fov: V,
    player: PlayerId,
    units: Seq<Unit>,
    extra: Unit,
)
    ensures
        ({
            let before = sweep_own(v, map, sv, db, fov, player, units);
            let after = sweep_own(v, map, sv, db, fov, player, units.push(extra));
            &&& after.ground.len() == before.ground.len()
            &&& after.air.len() == before.air.len()
            &&& forall|i: int|
                0 <= i < before.ground.len() ==> rank(#[trigger] before.ground[i]) <= rank(
                    after.ground[i],
                )
            &&& forall|i: int|
                0 <= i < before.air.len() ==> rank(#[trigger] before.air[i]) <= rank(after.air[i])
        }),
{
    assert(units.push(extra).drop_last() =~= units);
}

/// Whether every living unit of `player` in `a` is also in `b`.
pub open spec fn own_units_within(player: PlayerId, a: Seq<Unit>, b: Seq<Unit>) -> bool {
    forall|k: int| 0 <= k < a.len() && counts_for(player, #[trigger] a[k]) ==> b.contains(a[k])
}

/// Recomputing the grids from a state that holds, on the same map and
/// objects, every living unit of the player that another state holds (and
/// maybe more) never gives a lower cell in either grid.
pub proof fn lemma_reset_more_own_units_never_lower<V: FieldOfView>(
    n: nat,
    map: Grid<Terrain>,
    sv1: StateView,
    sv2: StateView,
    db: Db,
    fov: V,
    player: PlayerId,
)
    requires
        sv1.objects == sv2.objects,
        own_units_within(player, sv1.units, sv2.units),
    ensures
        reset_view(n, map, sv1, db, fov, player).ground.len() == n,
        reset_view(n, map, sv2, db, fov, player).ground.len() == n,
        forall|i: int|
            0 <= i < n ==> rank(#[trigger] reset_view(n, map, sv1, db, fov, player).ground[i]) <= rank(
                reset_view(n, map, sv2, db, fov, player).ground[i],
            ),
        reset_view(n, map, sv1, db, fov, player).air.len() == n,
        reset_view(n, map, sv2, db, fov, player).air.len() == n,
        forall|i: int|
            0 <= i < n ==> rank(#[trigger] reset_view(n, map, sv1, db, fov, player).air[i]) <= rank(
                reset_view(n, map, sv2, db, fov, player).air[i],
            ),
{
    let start = FowView { ground: cleared(n), air: cleared(n) };
    lemma_sweep_own_len(start, map, sv1, db, fov, player, sv1.units);
    lemma_sweep_own_len(start, map, sv2, db, fov, player, sv2.units);
    let g1 = reset_view(n, map, sv1, db, fov, player).ground;
    let g2 = reset_view(n, map, sv2, db, fov, player).ground;
    assert forall|i: int| 0 <= i < n implies rank(#[trigger] g1[i]) <= rank(g2[i]) by {
        lemma_reset_is_best_own_view(n, map, sv1, db, fov, player, i);
        lemma_reset_is_best_own_view(n, map, sv2, db, fov, player, i);
        if g1[i] != TileVisibility::No {
            let k = choose|k: int|
                0 <= k < sv1.units.len() && counts_for(player, #[trigger] sv1.units[k]) && sees_cell(
                    fov,
                    map,
                    sv1,
                    db,
                    sv1.units[k],
                    i,
                ) && g1[i] == unit_sight(map, sv1, db, sv1.units[k], i);
            let u = sv1.units[k];
            assert(sv2.units.contains(u));
            let m = choose|m: int| 0 <= m < sv2.units.len() && sv2.units[m] == u;
            assert(sees_cell(fov, map, sv2, db, sv2.units[m], i));
            assert(unit_sight(map, sv2, db, sv2.units[m], i) == unit_sight(map, sv1, db, u, i));
        }
    }
    let a1 = reset_view(n, map, sv1, db, fov, player).air;
    let a2 = reset_view(n, map, sv2, db, fov, player).air;
    assert forall|i: int| 0 <= i < n implies rank(#[trigger] a1[i]) <= rank(a2[i]) by {
        lemma_reset_is_best_own_air_view(n, map, sv1, db, fov, player, i);
        lemma_reset_is_best_own_air_view(n, map, sv2, db, fov, player, i);
        if a1[i] != TileVisibility::No {
            let k = choose|k: int|
                0 <= k < sv1.units.len() && counts_for(player, #[trigger] sv1.units[k]) && sees_cell(
                    fov,
                    map,
                    sv1,
                    db,
                    sv1.units[k],
                    i,
                ) && is_air_unit(db, sv1.units[k]) && a1[i] == unit_sight(map, sv1, db, sv1.units[k], i);
            let u = sv1.units[k];
            assert(sv2.units.contains(u));
            let m = choose|m: int| 0 <= m < sv2.units.len() && sv2.units[m] == u;
            assert(sees_cell(fov, map, sv2, db, sv2.units[m], i));
            assert(unit_sight(map, sv2, db, sv2.units[m], i) == unit_sight(map, sv1, db, u, i));
        }
    }
}

/// Enemy units and dead units play no part in the grids: two states on the
/// same map and objects with the same living units of the player give the
/// same grids when recomputed.
pub proof fn lemma_reset_ignores_other_units<V: FieldOfView>(
    n: nat,
    map: Grid<Terrain>,
    sv1: StateView,
    sv2: StateView,
    db: Db,
    fov: V,
    player: PlayerId,
)
    requires
        sv1.objects == sv2.objects,
        own_units_within(player, sv1.units, sv2.units),
        own_units_within(player, sv2.units, sv1.units),
    ensures
        reset_view(n, map, sv1, db, fov, player) == reset_view(n, map, sv2, db, fov, player),
{
    lemma_reset_more_own_units_never_lower(n, map, sv1, sv2, db, fov, player);
    lemma_reset_more_own_units_never_lower(n, map, sv2, sv1, db, fov, player);
    let g1 = reset_view(n, map, sv1, db, fov, player).ground;
    let g2 = reset_view(n, map, sv2, db, fov, player).ground;
    assert forall|i: int| 0 <= i < n implies g1[i] == g2[i] by {
        assert(rank(g1[i]) <= rank(g2[i]));
        assert(rank(g2[i]) <= rank(g1[i]));
    }
    assert(g1 =~= g2);
    let a1 = reset_view(n, map, sv1, db, fov, player).air;
    let a2 = reset_view(n, map, sv2, db, fov, player).air;
    assert forall|i: int| 0 <= i < n implies a1[i] == a2[i] by {
        assert(rank(a1[i]) <= rank(a2[i]));
        assert(rank(a2[i]) <= rank(a1[i]));
    }
    assert(a1 =~= a2);
}

} // verus!
