use std::rc::Rc;

use fog_core::fow::{calc_visibility, FieldOfView, Fow, OpenSight, TileVisibility};
use fog_core::game::Game;
use fog_core::game_state::{unit, units_at, GameState};
use fog_core::map::Grid;
use fog_core::partial_state::{visible_units, PartialState, TmpPartialState};
use fog_core::state::FullState;
use fog_core::types::{
    AttackInfo, CoreEvent, Db, ExactPos, MapPos, Object, ObjectClass, ObjectId, PlayerId, Size2,
    SlotId, Terrain, UnitId, UnitInfo, UnitType, UnitTypeId,
};

const JEEP: usize = 0;
const SMG: usize = 1;
const HELICOPTER: usize = 2;

fn pos(x: i32, y: i32) -> MapPos {
    MapPos { x, y }
}

fn ground(x: i32, y: i32, slot: u8) -> ExactPos {
    ExactPos { map_pos: pos(x, y), slot_id: SlotId::Id(slot) }
}

fn air(x: i32, y: i32) -> ExactPos {
    ExactPos { map_pos: pos(x, y), slot_id: SlotId::Air }
}

fn db() -> Rc<Db> {
    Rc::new(Db {
        unit_types: vec![
            UnitType { los_range: 5, cover_los_range: 1, is_air: false, is_infantry: false, count: 1 },
            UnitType { los_range: 3, cover_los_range: 1, is_air: false, is_infantry: true, count: 10 },
            UnitType { los_range: 2, cover_los_range: 1, is_air: true, is_infantry: false, count: 1 },
        ],
    })
}

const W: i32 = 10;
const H: i32 = 3;

fn terrain() -> Grid<Terrain> {
    let mut map = Grid::new(Size2 { w: W, h: H }, Terrain::Plain);
    map.set_tile(pos(3, 0), Terrain::Trees);
    map.set_tile(pos(7, 1), Terrain::City);
    map
}

fn objects() -> Vec<Object> {
    vec![
        Object { id: ObjectId { id: 1 }, class: ObjectClass::Road, pos: pos(2, 0), second_cell: None },
        Object { id: ObjectId { id: 2 }, class: ObjectClass::Building, pos: pos(4, 0), second_cell: None },
    ]
}

fn new_game() -> Game {
    Game::new(db(), terrain(), objects(), Vec::new(), 2)
}

fn create(id: i32, player: i32, type_id: usize, at: ExactPos) -> CoreEvent {
    CoreEvent::CreateUnit {
        unit_info: UnitInfo {
            unit_id: UnitId { id },
            pos: at,
            type_id: UnitTypeId { id: type_id },
            player_id: PlayerId { id: player },
        },
    }
}

fn end_turn(old_id: i32, new_id: i32) -> CoreEvent {
    CoreEvent::EndTurn { old_id: PlayerId { id: old_id }, new_id: PlayerId { id: new_id } }
}

fn move_unit(id: i32, from: ExactPos, to: ExactPos) -> CoreEvent {
    CoreEvent::Move { unit_id: UnitId { id }, from, to }
}

fn attack(attacker: i32, defender: i32, is_ambush: bool) -> CoreEvent {
    CoreEvent::AttackUnit {
        attack_info: AttackInfo {
            attacker_id: Some(UnitId { id: attacker }),
            defender_id: UnitId { id: defender },
            killed: 0,
            is_ambush,
        },
    }
}

fn cells(fow: &Fow) -> Vec<(TileVisibility, TileVisibility)> {
    let mut r = Vec::new();
    for y in 0..H {
        for x in 0..W {
            r.push((fow.ground_tile(pos(x, y)), fow.air_tile(pos(x, y))));
        }
    }
    r
}

fn jeep_type() -> UnitType {
    db().unit_types[JEEP]
}

#[test]
fn calc_visibility_follows_range_terrain_and_objects() {
    let state = FullState::new(db(), terrain(), objects(), Vec::new(), 2);
    let jeep = jeep_type();
    let origin = pos(0, 0);
    assert_eq!(calc_visibility(&state, &jeep, origin, pos(0, 0)), TileVisibility::Excellent);
    assert_eq!(calc_visibility(&state, &jeep, origin, pos(1, 0)), TileVisibility::Excellent);
    assert_eq!(calc_visibility(&state, &jeep, origin, pos(2, 0)), TileVisibility::Excellent);
    assert_eq!(calc_visibility(&state, &jeep, origin, pos(3, 0)), TileVisibility::Normal);
    assert_eq!(calc_visibility(&state, &jeep, origin, pos(4, 0)), TileVisibility::Normal);
    assert_eq!(calc_visibility(&state, &jeep, origin, pos(5, 0)), TileVisibility::Excellent);
    assert_eq!(calc_visibility(&state, &jeep, origin, pos(6, 0)), TileVisibility::No);
    // Within cover range terrain and buildings do not matter.
    assert_eq!(calc_visibility(&state, &jeep, pos(2, 0), pos(3, 0)), TileVisibility::Excellent);
    assert_eq!(calc_visibility(&state, &jeep, pos(5, 0), pos(4, 0)), TileVisibility::Excellent);
}

#[test]
fn smoke_lowers_open_ground_to_normal() {
    let mut state = FullState::new(db(), terrain(), objects(), Vec::new(), 2);
    let jeep = jeep_type();
    assert_eq!(calc_visibility(&state, &jeep, pos(0, 0), pos(5, 0)), TileVisibility::Excellent);
    state.apply_event(&CoreEvent::Smoke { id: ObjectId { id: 9 }, pos: pos(5, 0), unit_id: None });
    assert_eq!(calc_visibility(&state, &jeep, pos(0, 0), pos(5, 0)), TileVisibility::Normal);
}

#[test]
fn new_fow_sees_nothing() {
    let fow = Fow::new(db(), Size2 { w: W, h: H }, PlayerId { id: 0 });
    assert_eq!(fow.player_id(), PlayerId { id: 0 });
    for c in cells(&fow) {
        assert_eq!(c, (TileVisibility::No, TileVisibility::No));
    }
    assert!(!fow.is_tile_visible(pos(0, 0)));
    assert!(!fow.is_tile_visible(pos(-1, 0)));
    assert!(!fow.is_tile_visible(pos(W, 0)));
}

#[test]
fn created_unit_is_swept_for_its_owner_only() {
    let mut game = new_game();
    game.apply_event(&create(1, 0, JEEP, ground(0, 0, 0)), &OpenSight);
    let own = game.fow(0);
    assert_eq!(own.ground_tile(pos(0, 0)), TileVisibility::Excellent);
    assert_eq!(own.ground_tile(pos(3, 0)), TileVisibility::Normal);
    assert_eq!(own.ground_tile(pos(6, 0)), TileVisibility::No);
    assert!(own.is_tile_visible(pos(5, 0)));
    assert!(!own.is_tile_visible(pos(6, 0)));
    assert_eq!(own.air_tile(pos(0, 0)), TileVisibility::No);
    for c in cells(game.fow(1)) {
        assert_eq!(c, (TileVisibility::No, TileVisibility::No));
    }
}

#[test]
fn air_unit_fills_both_layers() {
    let mut game = new_game();
    game.apply_event(&create(1, 1, HELICOPTER, air(9, 2)), &OpenSight);
    let fow = game.fow(1);
    assert_eq!(fow.air_tile(pos(9, 2)), TileVisibility::Excellent);
    assert_eq!(fow.ground_tile(pos(9, 2)), TileVisibility::Excellent);
    assert_eq!(fow.air_tile(pos(0, 0)), TileVisibility::No);
}

#[test]
fn ground_units_do_not_see_aircraft() {
    let mut game = new_game();
    game.apply_event(&create(1, 0, JEEP, ground(0, 0, 0)), &OpenSight);
    game.apply_event(&create(2, 1, HELICOPTER, air(1, 0)), &OpenSight);
    let heli = unit(game.state(), UnitId { id: 2 });
    assert!(game.fow(0).is_tile_visible(pos(1, 0)));
    assert!(!game.fow(0).is_visible(&heli, heli.pos));
}

#[test]
fn another_units_sight_never_lowers_a_cell() {
    let mut game = new_game();
    game.apply_event(&create(1, 0, JEEP, ground(0, 0, 0)), &OpenSight);
    let before = cells(game.fow(0));
    game.apply_event(&create(2, 0, SMG, ground(4, 1, 0)), &OpenSight);
    let after = cells(game.fow(0));
    let mut raised = false;
    for (b, a) in before.iter().zip(after.iter()) {
        assert!(a.0.rank() >= b.0.rank());
        assert!(a.1.rank() >= b.1.rank());
        if a.0.rank() > b.0.rank() {
            raised = true;
        }
    }
    assert!(raised);
}

#[test]
fn moving_adds_sight_and_keeps_old_sight() {
    let mut game = new_game();
    game.apply_event(&create(1, 0, JEEP, ground(0, 0, 0)), &OpenSight);
    game.apply_event(&move_unit(1, ground(0, 0, 0), ground(6, 0, 0)), &OpenSight);
    let fow = game.fow(0);
    assert_eq!(fow.ground_tile(pos(9, 0)), TileVisibility::Excellent);
    assert_eq!(fow.ground_tile(pos(0, 0)), TileVisibility::Excellent);
    // The next turn start forgets what the unit no longer sees.
    game.apply_event(&end_turn(1, 0), &OpenSight);
    assert_eq!(game.fow(0).ground_tile(pos(0, 0)), TileVisibility::No);
    assert_eq!(game.fow(0).ground_tile(pos(9, 0)), TileVisibility::Excellent);
}

#[test]
fn reset_twice_gives_same_grids() {
    let mut game = new_game();
    game.apply_event(&create(1, 0, JEEP, ground(0, 0, 0)), &OpenSight);
    game.apply_event(&create(2, 0, HELICOPTER, air(8, 2)), &OpenSight);
    game.apply_event(&move_unit(1, ground(0, 0, 0), ground(2, 1, 0)), &OpenSight);
    game.apply_event(&end_turn(1, 0), &OpenSight);
    let once = cells(game.fow(0));
    game.apply_event(&end_turn(1, 0), &OpenSight);
    let twice = cells(game.fow(0));
    assert_eq!(once, twice);
    assert_eq!(game.fow(0).ground_tile(pos(0, 0)), TileVisibility::Excellent);
    assert_eq!(game.fow(0).air_tile(pos(8, 2)), TileVisibility::Excellent);
}

#[test]
fn dead_units_do_not_see_after_reset() {
    let mut game = new_game();
    game.apply_event(&create(1, 0, JEEP, ground(0, 0, 0)), &OpenSight);
    game.apply_event(&create(2, 1, SMG, ground(1, 0, 0)), &OpenSight);
    game.apply_event(&CoreEvent::AttackUnit {
        attack_info: AttackInfo {
            attacker_id: Some(UnitId { id: 2 }),
            defender_id: UnitId { id: 1 },
            killed: 1,
            is_ambush: true,
        },
    }, &OpenSight);
    game.apply_event(&end_turn(1, 0), &OpenSight);
    for c in cells(game.fow(0)) {
        assert_eq!(c, (TileVisibility::No, TileVisibility::No));
    }
}

#[test]
fn infantry_hides_where_sight_is_partial() {
    let mut game = new_game();
    game.apply_event(&create(1, 0, JEEP, ground(0, 0, 0)), &OpenSight);
    game.apply_event(&create(2, 1, SMG, ground(3, 0, 0)), &OpenSight);
    game.apply_event(&create(3, 1, JEEP, ground(3, 0, 1)), &OpenSight);
    let fow = game.fow(0);
    assert_eq!(fow.ground_tile(pos(3, 0)), TileVisibility::Normal);
    let smg = unit(game.state(), UnitId { id: 2 });
    let jeep = unit(game.state(), UnitId { id: 3 });
    assert!(!fow.is_visible(&smg, smg.pos));
    assert!(fow.is_visible(&jeep, jeep.pos));
    // Up close the infantry is seen.
    game.apply_event(&move_unit(1, ground(0, 0, 0), ground(2, 0, 0)), &OpenSight);
    let smg = unit(game.state(), UnitId { id: 2 });
    assert!(game.fow(0).is_visible(&smg, smg.pos));
}

#[test]
fn carried_units_are_never_seen() {
    let mut game = new_game();
    game.apply_event(&create(1, 0, JEEP, ground(2, 0, 0)), &OpenSight);
    game.apply_event(&create(2, 1, SMG, ground(3, 0, 0)), &OpenSight);
    game.apply_event(&create(3, 1, JEEP, ground(3, 0, 1)), &OpenSight);
    game.apply_event(&CoreEvent::LoadUnit {
        transporter_id: UnitId { id: 3 },
        passenger_id: UnitId { id: 2 },
        to: ground(3, 0, 1),
    }, &OpenSight);
    let fow = game.fow(0);
    assert_eq!(fow.ground_tile(pos(3, 0)), TileVisibility::Excellent);
    let passenger = unit(game.state(), UnitId { id: 2 });
    let transporter = unit(game.state(), UnitId { id: 3 });
    assert!(passenger.is_loaded);
    assert!(!fow.is_visible(&passenger, passenger.pos));
    assert!(!fow.is_visible(&passenger, air(3, 0)));
    assert!(fow.is_visible(&transporter, transporter.pos));
}

#[test]
fn ambush_keeps_attacker_hidden() {
    let mut game = new_game();
    game.apply_event(&create(1, 0, JEEP, ground(0, 0, 0)), &OpenSight);
    game.apply_event(&create(2, 1, SMG, ground(8, 2, 0)), &OpenSight);
    assert_eq!(game.fow(0).ground_tile(pos(8, 2)), TileVisibility::No);
    game.apply_event(&attack(2, 1, true), &OpenSight);
    assert_eq!(game.fow(0).ground_tile(pos(8, 2)), TileVisibility::No);
    game.apply_event(&attack(2, 1, false), &OpenSight);
    assert_eq!(game.fow(0).ground_tile(pos(8, 2)), TileVisibility::Excellent);
    // The attacker's own side gets the flash too.
    assert_eq!(game.fow(1).ground_tile(pos(8, 2)), TileVisibility::Excellent);
}

#[test]
fn attack_without_disclosed_attacker_reveals_nothing() {
    let mut game = new_game();
    game.apply_event(&create(1, 0, JEEP, ground(0, 0, 0)), &OpenSight);
    let before = cells(game.fow(0));
    game.apply_event(&CoreEvent::AttackUnit {
        attack_info: AttackInfo {
            attacker_id: None,
            defender_id: UnitId { id: 1 },
            killed: 0,
            is_ambush: false,
        },
    }, &OpenSight);
    assert_eq!(cells(game.fow(0)), before);
}

#[test]
fn unload_sweeps_from_unload_cell() {
    let mut game = new_game();
    game.apply_event(&create(1, 0, JEEP, ground(0, 0, 0)), &OpenSight);
    game.apply_event(&create(2, 0, SMG, ground(0, 0, 1)), &OpenSight);
    game.apply_event(&CoreEvent::LoadUnit {
        transporter_id: UnitId { id: 1 },
        passenger_id: UnitId { id: 2 },
        to: ground(0, 0, 0),
    }, &OpenSight);
    assert_eq!(game.fow(0).ground_tile(pos(8, 0)), TileVisibility::No);
    game.apply_event(&CoreEvent::UnloadUnit {
        unit_info: UnitInfo {
            unit_id: UnitId { id: 2 },
            pos: ground(6, 0, 0),
            type_id: UnitTypeId { id: SMG },
            player_id: PlayerId { id: 0 },
        },
        transporter_id: UnitId { id: 1 },
    }, &OpenSight);
    assert_eq!(game.fow(0).ground_tile(pos(8, 0)), TileVisibility::Excellent);
}

#[test]
fn enemy_shows_up_exactly_when_it_comes_into_sight() {
    let mut game = new_game();
    // Player 0 creates a jeep and ends the turn.
    game.apply_event(&create(1, 0, JEEP, ground(0, 0, 0)), &OpenSight);
    game.apply_event(&end_turn(0, 1), &OpenSight);
    // Player 1 creates an aircraft far away and a jeep, and ends the turn.
    game.apply_event(&create(2, 1, HELICOPTER, air(9, 2)), &OpenSight);
    game.apply_event(&create(3, 1, JEEP, ground(7, 0, 0)), &OpenSight);
    game.apply_event(&end_turn(1, 0), &OpenSight);
    let seen_ids = |game: &Game| -> Vec<i32> {
        let view = TmpPartialState::new(game.state(), game.fow(0));
        view.units2().iter().map(|u| u.id.id).collect()
    };
    assert_eq!(seen_ids(&game), vec![1]);
    // One step is not enough: the enemy is six cells away.
    game.apply_event(&move_unit(1, ground(0, 0, 0), ground(1, 0, 0)), &OpenSight);
    assert_eq!(seen_ids(&game), vec![1]);
    // The next step brings it within sight range.
    game.apply_event(&move_unit(1, ground(1, 0, 0), ground(2, 0, 0)), &OpenSight);
    assert_eq!(seen_ids(&game), vec![1, 3]);
    let view = TmpPartialState::new(game.state(), game.fow(0));
    assert_eq!(view.units().len(), 3);
}

#[test]
fn replaying_the_log_reproduces_live_play() {
    let log = vec![
        create(1, 0, JEEP, ground(0, 0, 0)),
        create(4, 0, SMG, ground(1, 2, 0)),
        end_turn(0, 1),
        create(2, 1, HELICOPTER, air(9, 2)),
        create(3, 1, JEEP, ground(7, 0, 0)),
        CoreEvent::Smoke { id: ObjectId { id: 7 }, pos: pos(5, 1), unit_id: None },
        end_turn(1, 0),
        move_unit(1, ground(0, 0, 0), ground(1, 0, 0)),
        move_unit(1, ground(1, 0, 0), ground(2, 0, 0)),
        attack(3, 1, false),
        end_turn(0, 1),
        move_unit(2, air(9, 2), air(5, 2)),
        end_turn(1, 0),
    ];
    let mut live = new_game();
    for e in log.iter() {
        live.apply_event(e, &OpenSight);
    }
    let mut replayed = new_game();
    replayed.apply_log(&log, &OpenSight);
    assert_eq!(live.players_count(), 2);
    for i in 0..2 {
        assert_eq!(cells(live.fow(i)), cells(replayed.fow(i)));
    }
    assert_eq!(live.state().units(), replayed.state().units());
    assert_eq!(live.state().objects(), replayed.state().objects());
    // Replaying in two parts reaches the same place too.
    let mut split = new_game();
    split.apply_log(&log[..5].to_vec(), &OpenSight);
    split.apply_log(&log[5..].to_vec(), &OpenSight);
    for i in 0..2 {
        assert_eq!(cells(split.fow(i)), cells(replayed.fow(i)));
    }
    assert_eq!(split.state().units(), replayed.state().units());
}

#[test]
fn partial_state_applies_events_to_state_and_fow() {
    let mut view = PartialState::new(db(), terrain(), objects(), Vec::new(), 2, PlayerId { id: 0 });
    assert!(!view.is_tile_visible(pos(0, 0)));
    view.apply_event(&create(1, 0, JEEP, ground(0, 0, 0)), &OpenSight);
    view.apply_event(&create(2, 1, SMG, ground(3, 0, 0)), &OpenSight);
    assert!(view.is_tile_visible(pos(0, 0)));
    assert_eq!(view.units().len(), 2);
    assert_eq!(view.units2().len(), 2);
    let smg = view.unit_opt(UnitId { id: 2 }).unwrap();
    assert!(!view.is_unit_visible(&smg));
    assert_eq!(view.objects().len(), 2);
    assert_eq!(view.map().tile(pos(3, 0)), Terrain::Trees);
    assert!(view.sectors().is_empty());
    assert_eq!(view.score().len(), 2);
    assert_eq!(view.reinforcement_points().len(), 2);
    let filtered = visible_units(view.units(), view.fow());
    assert_eq!(filtered.len(), 1);
    assert_eq!(filtered[0].id, UnitId { id: 1 });
}

#[test]
fn views_filter_units_but_not_objects() {
    let mut game = new_game();
    game.apply_event(&create(1, 0, JEEP, ground(0, 0, 0)), &OpenSight);
    game.apply_event(&create(2, 1, SMG, ground(3, 0, 0)), &OpenSight);
    game.apply_event(&create(3, 1, JEEP, ground(3, 0, 1)), &OpenSight);
    game.apply_event(&create(4, 1, JEEP, ground(9, 2, 0)), &OpenSight);
    let full = game.state();
    assert_eq!(GameState::units2(full).len(), 4);
    assert_eq!(units_at(full, pos(3, 0)).len(), 2);
    let view = TmpPartialState::new(game.state(), game.fow(0));
    let seen: Vec<i32> = GameState::units2(&view).iter().map(|u| u.id.id).collect();
    assert_eq!(seen, vec![1, 3]);
    let here = units_at(&view, pos(3, 0));
    assert_eq!(here.len(), 1);
    assert_eq!(here[0].id, UnitId { id: 3 });
    assert_eq!(GameState::objects(&view).len(), 2);
    assert_eq!(GameState::map(&view).tile(pos(7, 1)), Terrain::City);
    assert_eq!(GameState::unit_opt(&view, UnitId { id: 4 }).map(|u| u.id), Some(UnitId { id: 4 }));
    assert!(GameState::sectors(&view).is_empty());
    assert_eq!(GameState::score(&view).len(), 2);
    assert_eq!(GameState::reinforcement_points(&view).len(), 2);
}

#[test]
fn fow_driven_directly_by_a_state() {
    let shared = db();
    let mut state = FullState::new(shared.clone(), terrain(), objects(), Vec::new(), 2);
    let mut fow = Fow::new(shared, Size2 { w: W, h: H }, PlayerId { id: 1 });
    for e in [create(1, 1, JEEP, ground(9, 0, 0)), create(2, 0, JEEP, ground(6, 0, 0))] {
        state.apply_event(&e);
        fow.apply_event(&state, &e, &OpenSight);
    }
    let enemy = unit(&state, UnitId { id: 2 });
    assert!(fog_core::fow::FogOfWar::is_visible(&fow, &enemy, enemy.pos));
    assert!(fow.is_tile_visible(pos(4, 0)));
    assert!(!fow.is_tile_visible(pos(3, 0)));
    // Another player's turn starting changes nothing here.
    let before = cells(&fow);
    let e = end_turn(1, 0);
    state.apply_event(&e);
    fow.apply_event(&state, &e, &OpenSight);
    assert_eq!(cells(&fow), before);
}

#[test]
fn open_sight_lists_cells_in_range() {
    let state = FullState::new(db(), terrain(), objects(), Vec::new(), 2);
    let cells = OpenSight.visible_cells(&state, pos(0, 0), 1, false);
    assert_eq!(cells.len(), 4);
    assert!(cells.contains(&pos(0, 0)));
    assert!(cells.contains(&pos(1, 0)));
    assert!(cells.contains(&pos(0, 1)));
    assert!(cells.contains(&pos(1, 1)));
    assert!(!cells.contains(&pos(2, 0)));
    assert!(!cells.contains(&pos(0, 2)));
    let none = OpenSight.visible_cells(&state, pos(0, 0), -1, true);
    assert!(none.is_empty());
}

#[test]
fn partial_state_replay_matches_live_play() {
    let log = vec![
        create(1, 0, JEEP, ground(0, 0, 0)),
        create(2, 1, SMG, ground(3, 0, 0)),
        end_turn(0, 1),
        create(3, 1, HELICOPTER, air(9, 2)),
        end_turn(1, 0),
        move_unit(1, ground(0, 0, 0), ground(4, 1, 0)),
        attack(2, 1, false),
    ];
    for player in 0..2 {
        let mut live = PartialState::new(db(), terrain(), objects(), Vec::new(), 2, PlayerId { id: player });
        for e in log.iter() {
            live.apply_event(e, &OpenSight);
        }
        let mut fresh = PartialState::new(db(), terrain(), objects(), Vec::new(), 2, PlayerId { id: player });
        fresh.apply_log(&log, &OpenSight);
        assert_eq!(cells(live.fow()), cells(fresh.fow()));
        assert_eq!(live.units(), fresh.units());
    }
}
