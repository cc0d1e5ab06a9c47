use std::rc::Rc;

use fog_core::game_state::{objects_at, unit, unit_at, unit_at_opt, units_at};
use fog_core::map::Grid;
use fog_core::state::FullState;
use fog_core::types::{
    AttackInfo, CoreEvent, Db, ExactPos, MapPos, Object, ObjectClass, ObjectId, PlayerId,
    ReactionFireMode, Sector, SectorId, Size2, SlotId, Terrain, UnitId, UnitInfo, UnitType,
    UnitTypeId,
};

fn pos(x: i32, y: i32) -> MapPos {
    MapPos { x, y }
}

fn ground(x: i32, y: i32, slot: u8) -> ExactPos {
    ExactPos { map_pos: pos(x, y), slot_id: SlotId::Id(slot) }
}

fn db() -> Rc<Db> {
    Rc::new(Db {
        unit_types: vec![
            UnitType { los_range: 5, cover_los_range: 1, is_air: false, is_infantry: false, count: 1 },
            UnitType { los_range: 3, cover_los_range: 1, is_air: false, is_infantry: true, count: 10 },
        ],
    })
}

fn new_state() -> FullState {
    let map = Grid::new(Size2 { w: 6, h: 4 }, Terrain::Plain);
    let sectors = vec![Sector { id: SectorId { id: 1 }, owner_id: None }];
    FullState::new(db(), map, Vec::new(), sectors, 2)
}

fn create(state: &mut FullState, id: i32, player: i32, type_id: usize, at: ExactPos) {
    state.apply_event(&CoreEvent::CreateUnit {
        unit_info: UnitInfo {
            unit_id: UnitId { id },
            pos: at,
            type_id: UnitTypeId { id: type_id },
            player_id: PlayerId { id: player },
        },
    });
}

#[test]
fn new_state_has_players_and_no_units() {
    let state = new_state();
    assert!(state.units().is_empty());
    assert_eq!(state.score().len(), 2);
    assert_eq!(state.score()[1].player_id, PlayerId { id: 1 });
    assert_eq!(state.score()[1].n, 0);
    assert_eq!(state.reinforcement_points().len(), 2);
}

#[test]
fn create_unit_uses_type_count() {
    let mut state = new_state();
    create(&mut state, 7, 0, 1, ground(1, 1, 0));
    let u = unit(&state, UnitId { id: 7 });
    assert_eq!(u.count, 10);
    assert!(u.is_alive);
    assert_eq!(u.pos, ground(1, 1, 0));
    assert_eq!(u.reaction_fire_mode, ReactionFireMode::Normal);
    assert!(state.unit_opt(UnitId { id: 8 }).is_none());
}

#[test]
fn show_unit_with_known_id_replaces_it() {
    let mut state = new_state();
    create(&mut state, 7, 0, 0, ground(1, 1, 0));
    state.apply_event(&CoreEvent::ShowUnit {
        unit_info: UnitInfo {
            unit_id: UnitId { id: 7 },
            pos: ground(2, 2, 0),
            type_id: UnitTypeId { id: 0 },
            player_id: PlayerId { id: 0 },
        },
    });
    assert_eq!(state.units().len(), 1);
    assert_eq!(unit(&state, UnitId { id: 7 }).pos, ground(2, 2, 0));
}

#[test]
fn hide_unit_removes_it() {
    let mut state = new_state();
    create(&mut state, 1, 0, 0, ground(0, 0, 0));
    create(&mut state, 2, 1, 0, ground(3, 0, 0));
    state.apply_event(&CoreEvent::HideUnit { unit_id: UnitId { id: 1 } });
    assert_eq!(state.units().len(), 1);
    assert!(state.unit_opt(UnitId { id: 1 }).is_none());
    assert!(state.unit_opt(UnitId { id: 2 }).is_some());
}

#[test]
fn move_takes_passenger_and_towed_unit_along() {
    let mut state = new_state();
    create(&mut state, 1, 0, 0, ground(0, 0, 0));
    create(&mut state, 2, 0, 1, ground(0, 0, 1));
    create(&mut state, 3, 0, 0, ground(1, 0, 0));
    create(&mut state, 4, 0, 0, ground(5, 3, 0));
    state.apply_event(&CoreEvent::LoadUnit {
        transporter_id: UnitId { id: 1 },
        passenger_id: UnitId { id: 2 },
        to: ground(0, 0, 0),
    });
    assert!(unit(&state, UnitId { id: 2 }).is_loaded);
    assert_eq!(unit(&state, UnitId { id: 1 }).passenger_id, Some(UnitId { id: 2 }));
    state.apply_event(&CoreEvent::Attach {
        transporter_id: UnitId { id: 1 },
        attached_unit_id: UnitId { id: 3 },
    });
    assert!(unit(&state, UnitId { id: 3 }).is_attached);
    assert_eq!(unit(&state, UnitId { id: 3 }).pos, ground(0, 0, 0));
    state.apply_event(&CoreEvent::Move {
        unit_id: UnitId { id: 1 },
        from: ground(0, 0, 0),
        to: ground(2, 1, 0),
    });
    assert_eq!(unit(&state, UnitId { id: 1 }).pos, ground(2, 1, 0));
    assert_eq!(unit(&state, UnitId { id: 2 }).pos, ground(2, 1, 0));
    assert_eq!(unit(&state, UnitId { id: 3 }).pos, ground(2, 1, 0));
    assert_eq!(unit(&state, UnitId { id: 4 }).pos, ground(5, 3, 0));
}

#[test]
fn unload_and_detach() {
    let mut state = new_state();
    create(&mut state, 1, 0, 0, ground(0, 0, 0));
    create(&mut state, 2, 0, 1, ground(0, 0, 1));
    create(&mut state, 3, 0, 0, ground(1, 0, 0));
    state.apply_event(&CoreEvent::LoadUnit {
        transporter_id: UnitId { id: 1 },
        passenger_id: UnitId { id: 2 },
        to: ground(0, 0, 0),
    });
    state.apply_event(&CoreEvent::UnloadUnit {
        unit_info: UnitInfo {
            unit_id: UnitId { id: 2 },
            pos: ground(1, 1, 0),
            type_id: UnitTypeId { id: 1 },
            player_id: PlayerId { id: 0 },
        },
        transporter_id: UnitId { id: 1 },
    });
    let passenger = unit(&state, UnitId { id: 2 });
    assert!(!passenger.is_loaded);
    assert_eq!(passenger.pos, ground(1, 1, 0));
    assert_eq!(unit(&state, UnitId { id: 1 }).passenger_id, None);

    state.apply_event(&CoreEvent::Attach {
        transporter_id: UnitId { id: 1 },
        attached_unit_id: UnitId { id: 3 },
    });
    state.apply_event(&CoreEvent::Detach { transporter_id: UnitId { id: 1 }, to: ground(0, 1, 0) });
    assert_eq!(unit(&state, UnitId { id: 1 }).pos, ground(0, 1, 0));
    assert_eq!(unit(&state, UnitId { id: 1 }).attached_unit_id, None);
    assert!(!unit(&state, UnitId { id: 3 }).is_attached);
    assert_eq!(unit(&state, UnitId { id: 3 }).pos, ground(0, 0, 0));
}

#[test]
fn attack_reduces_count_and_kills() {
    let mut state = new_state();
    create(&mut state, 1, 0, 0, ground(0, 0, 0));
    create(&mut state, 2, 1, 1, ground(1, 0, 0));
    let attack = |killed: i32| CoreEvent::AttackUnit {
        attack_info: AttackInfo {
            attacker_id: Some(UnitId { id: 1 }),
            defender_id: UnitId { id: 2 },
            killed,
            is_ambush: false,
        },
    };
    state.apply_event(&attack(3));
    assert_eq!(unit(&state, UnitId { id: 2 }).count, 7);
    assert!(unit(&state, UnitId { id: 2 }).is_alive);
    state.apply_event(&attack(-5));
    assert_eq!(unit(&state, UnitId { id: 2 }).count, 7);
    state.apply_event(&attack(100));
    assert_eq!(unit(&state, UnitId { id: 2 }).count, 0);
    assert!(!unit(&state, UnitId { id: 2 }).is_alive);
}

#[test]
fn reaction_fire_mode_changes() {
    let mut state = new_state();
    create(&mut state, 1, 0, 0, ground(0, 0, 0));
    state.apply_event(&CoreEvent::SetReactionFireMode {
        unit_id: UnitId { id: 1 },
        mode: ReactionFireMode::HoldFire,
    });
    assert_eq!(unit(&state, UnitId { id: 1 }).reaction_fire_mode, ReactionFireMode::HoldFire);
}

#[test]
fn smoke_comes_and_goes() {
    let mut state = new_state();
    assert!(!state.is_occluded(pos(2, 2)));
    state.apply_event(&CoreEvent::Smoke { id: ObjectId { id: 5 }, pos: pos(2, 2), unit_id: None });
    assert!(state.is_occluded(pos(2, 2)));
    assert_eq!(objects_at(&state, pos(2, 2)).len(), 1);
    assert_eq!(objects_at(&state, pos(2, 2))[0].class, ObjectClass::Smoke);
    state.apply_event(&CoreEvent::RemoveSmoke { id: ObjectId { id: 5 } });
    assert!(!state.is_occluded(pos(2, 2)));
    assert!(state.objects().is_empty());
}

#[test]
fn two_cell_object_covers_both_cells() {
    let map = Grid::new(Size2 { w: 4, h: 4 }, Terrain::Plain);
    let objects = vec![
        Object { id: ObjectId { id: 1 }, class: ObjectClass::Building, pos: pos(1, 1), second_cell: Some(pos(2, 1)) },
        Object { id: ObjectId { id: 2 }, class: ObjectClass::Road, pos: pos(3, 3), second_cell: None },
    ];
    let state = FullState::new(db(), map, objects, Vec::new(), 2);
    assert!(state.is_occluded(pos(1, 1)));
    assert!(state.is_occluded(pos(2, 1)));
    assert!(!state.is_occluded(pos(3, 3)));
    assert_eq!(objects_at(&state, pos(3, 3)).len(), 1);
    assert!(objects_at(&state, pos(0, 0)).is_empty());
}

#[test]
fn victory_points_add_up_and_saturate() {
    let mut state = new_state();
    let vp = |player: i32, count: i32| CoreEvent::VictoryPoint {
        player_id: PlayerId { id: player },
        pos: pos(0, 0),
        count,
    };
    state.apply_event(&vp(1, 3));
    state.apply_event(&vp(1, 4));
    assert_eq!(state.score()[1].n, 7);
    assert_eq!(state.score()[0].n, 0);
    state.apply_event(&vp(1, i32::MAX));
    assert_eq!(state.score()[1].n, i32::MAX);
    state.apply_event(&vp(5, 2));
    assert_eq!(state.score().len(), 3);
    assert_eq!(state.score()[2].player_id, PlayerId { id: 5 });
    assert_eq!(state.score()[2].n, 2);
}

#[test]
fn sector_owner_changes_only_for_known_sectors() {
    let mut state = new_state();
    state.apply_event(&CoreEvent::SectorOwnerChanged {
        sector_id: SectorId { id: 1 },
        new_owner_id: Some(PlayerId { id: 1 }),
    });
    assert_eq!(state.sectors()[0].owner_id, Some(PlayerId { id: 1 }));
    state.apply_event(&CoreEvent::SectorOwnerChanged {
        sector_id: SectorId { id: 9 },
        new_owner_id: Some(PlayerId { id: 0 }),
    });
    assert_eq!(state.sectors().len(), 1);
}

#[test]
fn end_turn_leaves_state_alone() {
    let mut state = new_state();
    create(&mut state, 1, 0, 0, ground(0, 0, 0));
    state.apply_event(&CoreEvent::EndTurn { old_id: PlayerId { id: 0 }, new_id: PlayerId { id: 1 } });
    assert_eq!(state.units().len(), 1);
    assert_eq!(unit(&state, UnitId { id: 1 }).pos, ground(0, 0, 0));
}

#[test]
fn lookups_by_position() {
    let mut state = new_state();
    create(&mut state, 1, 0, 0, ground(2, 2, 0));
    create(&mut state, 2, 0, 0, ground(2, 2, 1));
    create(&mut state, 3, 0, 0, ground(3, 2, 0));
    let here = units_at(&state, pos(2, 2));
    assert_eq!(here.len(), 2);
    assert_eq!(here[0].id, UnitId { id: 1 });
    assert_eq!(here[1].id, UnitId { id: 2 });
    assert_eq!(unit_at_opt(&state, ground(2, 2, 1)).map(|u| u.id), Some(UnitId { id: 2 }));
    assert_eq!(unit_at(&state, ground(3, 2, 0)).id, UnitId { id: 3 });
    assert!(unit_at_opt(&state, ground(0, 0, 0)).is_none());
}
