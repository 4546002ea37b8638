use rusty_apple::arena::grid::{Cell, Grid};
use rusty_apple::mob::effects::{EffectType, StatusEffect, StatusEffects};
use rusty_apple::mob::enemy::{
    deploy_mod_spawners, despawn_stuck, follow_path, level_up_on_kills_reached,
    mob_despawn_system, mob_spawn_system, overshoot, trigger_move_to_start_position, MobSpawner,
    ScheduledForDespawnEnemy, Step,
};
use rusty_apple::mob::{
    Enemies, EnemyDespawnReason, EnemyUnit, MobDespawnEvent, MobSpawnEvent, SpawnId, SpawnIds,
};
use rusty_apple::player::PlayerUpdateEvent;
use rusty_apple::ui::level::LevelMap;

fn unit() -> EnemyUnit {
    Enemies::Block.into_unit(SpawnId { id: 3 }, 2)
}

fn slow(remaining: u64, potency: u32) -> StatusEffect {
    StatusEffect { effect_type: EffectType::Slow, remaining, potency }
}

#[test]
fn enemy_damage_grows_with_level_up_to_twenty() {
    assert_eq!(Enemies::Block.damage(0), 1);
    assert_eq!(Enemies::Block.damage(1), 2);
    assert_eq!(Enemies::Block.damage(18), 19);
    assert_eq!(Enemies::Block.damage(19), 20);
    assert_eq!(Enemies::Block.damage(20), 20);
    assert_eq!(Enemies::Block.damage(u32::MAX), 20);
}

#[test]
fn into_unit_scales_health_and_experience() {
    let u = Enemies::Block.into_unit(SpawnId { id: 9 }, 7);
    assert_eq!(u.mob_type, Enemies::Block);
    assert_eq!(u.spawner_id, SpawnId { id: 9 });
    assert_eq!(u.health, 147);
    assert_eq!(u.experience, 3);
    assert_eq!(u.bricks, 1);
    assert_eq!(u.next_position, None);
    assert!(u.status_effects.get(&EffectType::Slow).is_none());
    let u = Enemies::Block.into_unit(SpawnId { id: 0 }, 0);
    assert_eq!(u.health, 0);
    assert_eq!(u.experience, 1);
    let u = Enemies::Block.into_unit(SpawnId { id: 0 }, 1);
    assert_eq!(u.health, 3);
    assert_eq!(u.experience, 1);
}

#[test]
fn spawn_ids_count_up() {
    let mut ids = SpawnIds::new();
    assert_eq!(ids.allocate(), SpawnId { id: 0 });
    assert_eq!(ids.allocate(), SpawnId { id: 1 });
    assert_eq!(ids.allocate(), SpawnId { id: 2 });
}

#[test]
fn insert_status_replaces_the_effect_of_the_same_kind() {
    let mut u = unit();
    u.insert_status(slow(5, 10));
    let got = u.status_effects.get(&EffectType::Slow).unwrap();
    assert_eq!((got.remaining, got.potency), (5, 10));
    u.insert_status(slow(2, 70));
    let got = u.status_effects.get(&EffectType::Slow).unwrap();
    assert_eq!((got.remaining, got.potency), (2, 70));
    assert_eq!(u.status_effects.speed_percent(), 30);
}

#[test]
fn insert_status_never_holds_the_kind_of_no_effect() {
    let mut u = unit();
    u.insert_status(StatusEffect { effect_type: EffectType::NoEffect, remaining: 9, potency: 9 });
    assert!(u.status_effects.get(&EffectType::NoEffect).is_none());
    assert!(u.status_effects.get(&EffectType::Slow).is_none());
    assert_eq!(u.status_effects.speed_percent(), 100);
    u.insert_status(slow(4, 20));
    u.insert_status(StatusEffect { effect_type: EffectType::NoEffect, remaining: 9, potency: 9 });
    assert!(u.status_effects.get(&EffectType::NoEffect).is_none());
    assert_eq!(u.status_effects.get(&EffectType::Slow).unwrap().remaining, 4);
}

#[test]
fn speed_percent_is_a_hundred_less_the_potency_and_at_least_one() {
    for (potency, percent) in [(0, 100), (1, 99), (50, 50), (98, 2), (99, 1), (100, 1), (500, 1)] {
        let mut e = StatusEffects::new();
        e.insert(slow(1, potency));
        assert_eq!(e.speed_percent(), percent);
    }
    assert_eq!(StatusEffects::new().speed_percent(), 100);
    let mut spent = StatusEffects::new();
    spent.insert(slow(0, 50));
    assert_eq!(spent.speed_percent(), 100);
}

#[test]
fn tick_counts_effects_down_and_drops_them_at_the_end() {
    let mut e = StatusEffects::new();
    e.insert(slow(10, 40));
    e.tick(3);
    assert_eq!(e.get(&EffectType::Slow).unwrap().remaining, 7);
    assert_eq!(e.get(&EffectType::Slow).unwrap().potency, 40);
    e.tick(0);
    assert_eq!(e.get(&EffectType::Slow).unwrap().remaining, 7);
    e.tick(7);
    assert!(e.get(&EffectType::Slow).is_none());
    e.insert(slow(2, 40));
    e.tick(u64::MAX);
    assert!(e.get(&EffectType::Slow).is_none());
    e.tick(1);
    assert!(e.get(&EffectType::Slow).is_none());
}

#[test]
fn slow_effect_expiry() {
    let grid = Grid::new(9);
    let mut u = unit();
    u.insert_status(slow(2, 50));
    let start = grid.start();
    let first = follow_path(&mut u, &grid, start, false, 1);
    let toward = Cell::new(7, 4);
    assert_eq!(first, Step::Move { toward, speed_percent: 50 });
    assert_eq!(u.status_effects.get(&EffectType::Slow).unwrap().remaining, 1);
    let second = follow_path(&mut u, &grid, start, false, 1);
    assert_eq!(second, Step::Move { toward, speed_percent: 50 });
    assert!(u.status_effects.get(&EffectType::Slow).is_none());
    let third = follow_path(&mut u, &grid, start, false, 1);
    assert_eq!(third, Step::Move { toward, speed_percent: 100 });
    assert!(u.status_effects.get(&EffectType::Slow).is_none());
    assert!(u.status_effects.get(&EffectType::NoEffect).is_none());
}

#[test]
fn a_unit_without_waypoint_takes_the_next_cell_of_the_route() {
    let grid = Grid::new(5);
    let mut u = unit();
    let step = follow_path(&mut u, &grid, Cell::new(4, 2), false, 16);
    assert_eq!(step, Step::Move { toward: Cell::new(3, 2), speed_percent: 100 });
    assert_eq!(u.next_position, Some(Cell::new(3, 2)));
    // on its way it keeps the waypoint
    let step = follow_path(&mut u, &grid, Cell::new(4, 2), false, 16);
    assert_eq!(step, Step::Move { toward: Cell::new(3, 2), speed_percent: 100 });
    // arrived, it takes the next
    let step = follow_path(&mut u, &grid, Cell::new(3, 2), true, 16);
    assert_eq!(step, Step::Move { toward: Cell::new(2, 2), speed_percent: 100 });
    assert_eq!(u.next_position, Some(Cell::new(2, 2)));
    assert_eq!(u.health, 12);
    assert_eq!(u.spawner_id, SpawnId { id: 3 });
}

#[test]
fn agent_re_route() {
    let mut grid = Grid::new(5);
    let mut u = unit();
    let at = Cell::new(4, 2);
    let step = follow_path(&mut u, &grid, at, false, 1);
    let blocked = Cell::new(3, 2);
    assert_eq!(step, Step::Move { toward: blocked, speed_percent: 100 });
    assert_eq!(grid.request_build(&blocked, Some(1)), Ok(()));
    let step = follow_path(&mut u, &grid, at, false, 1);
    match step {
        Step::Move { toward, speed_percent } => {
            assert_ne!(toward, blocked);
            assert!(!grid.is_occupied(&toward));
            assert_eq!(toward.x.abs_diff(at.x) + toward.y.abs_diff(at.y), 1);
            assert_eq!(toward, Cell::new(4, 3));
            assert_eq!(speed_percent, 100);
            assert_eq!(u.next_position, Some(toward));
        }
        other => panic!("{:?}", other),
    }
}

#[test]
fn agent_re_route_from_the_cell_that_was_built_on() {
    let mut grid = Grid::new(5);
    let mut u = unit();
    let _ = follow_path(&mut u, &grid, Cell::new(4, 2), false, 1);
    let waypoint = Cell::new(3, 2);
    assert_eq!(u.next_position, Some(waypoint));
    assert_eq!(grid.request_build(&waypoint, Some(1)), Ok(()));
    // the unit has come to the cell in the meantime
    let step = follow_path(&mut u, &grid, waypoint, true, 1);
    match step {
        Step::Move { toward, .. } => {
            assert_ne!(toward, waypoint);
            assert!(!grid.is_occupied(&toward));
            assert_eq!(toward.x.abs_diff(3) + toward.y.abs_diff(2), 1);
        }
        other => panic!("{:?}", other),
    }
}

#[test]
fn a_unit_on_the_goal_has_come_through() {
    let grid = Grid::new(5);
    let mut u = unit();
    u.next_position = Some(grid.goal());
    u.insert_status(slow(5, 10));
    let step = follow_path(&mut u, &grid, grid.goal(), true, 1);
    assert_eq!(step, Step::AtGoal);
    assert_eq!(u.next_position, Some(grid.goal()));
    assert_eq!(u.status_effects.get(&EffectType::Slow).unwrap().remaining, 5);
    let back = trigger_move_to_start_position(&mut u, &grid, true, false, 4);
    assert_eq!(back, Some((Cell::new(4, 2), PlayerUpdateEvent::Damage(5))));
    assert_eq!(u.next_position, None);
}

#[test]
fn move_to_start_only_on_the_goal_and_not_on_the_way_out() {
    let grid = Grid::new(5);
    let mut u = unit();
    u.next_position = Some(Cell::new(1, 2));
    assert_eq!(trigger_move_to_start_position(&mut u, &grid, false, false, 4), None);
    assert_eq!(trigger_move_to_start_position(&mut u, &grid, true, true, 4), None);
    assert_eq!(trigger_move_to_start_position(&mut u, &grid, false, true, 4), None);
    assert_eq!(u.next_position, Some(Cell::new(1, 2)));
    assert_eq!(
        trigger_move_to_start_position(&mut u, &grid, true, false, 40),
        Some((Cell::new(4, 2), PlayerUpdateEvent::Damage(20)))
    );
}

#[test]
fn a_unit_without_route_is_stuck_and_stays_as_it_is() {
    let mut grid = Grid::new(5);
    for c in [Cell::new(0, 3), Cell::new(1, 2), Cell::new(0, 1)] {
        grid.set_occupied(&c, None);
    }
    let mut u = unit();
    u.insert_status(slow(5, 10));
    let step = follow_path(&mut u, &grid, Cell::new(4, 2), false, 1);
    assert_eq!(step, Step::Stuck);
    assert_eq!(u.next_position, None);
    assert_eq!(u.status_effects.get(&EffectType::Slow).unwrap().remaining, 5);
    let mut schedule = ScheduledForDespawnEnemy::new();
    let notice = despawn_stuck(&mut schedule, 77, &u);
    assert_eq!(
        notice,
        Some(MobDespawnEvent {
            enemy_entity: 77,
            spawner_id: SpawnId { id: 3 },
            reason: EnemyDespawnReason::Stuck
        })
    );
    assert!(schedule.contains(&77));
    assert_eq!(despawn_stuck(&mut schedule, 77, &u), None);
    assert!(schedule.contains(&77));
    schedule.remove(&77);
    assert!(!schedule.contains(&77));
}

#[test]
fn overshoot_heads_for_the_cell_after_the_present_one() {
    let grid = Grid::new(5);
    let mut u = unit();
    u.next_position = Some(Cell::new(3, 2));
    assert_eq!(overshoot(&mut u, &grid, Cell::new(3, 2)), Some(Cell::new(2, 2)));
    assert_eq!(u.next_position, Some(Cell::new(2, 2)));
    assert_eq!(overshoot(&mut u, &grid, grid.goal()), None);
    assert_eq!(u.next_position, Some(Cell::new(2, 2)));
}

#[test]
fn spawner_is_deployed_when_none_is_out() {
    let mut ids = SpawnIds::new();
    let s = deploy_mod_spawners(0, 3, &mut ids).unwrap();
    assert_eq!(s.mob_type, Enemies::Block);
    assert_eq!(s.max_count, 6);
    assert_eq!(s.max_kill, 30);
    assert_eq!(s.current_count, 0);
    assert_eq!(s.current_kill, 0);
    assert_eq!(s.spawner_id, SpawnId { id: 0 });
    assert!(deploy_mod_spawners(1, 3, &mut ids).is_none());
    assert_eq!(deploy_mod_spawners(0, 1, &mut ids).unwrap().spawner_id, SpawnId { id: 1 });
}

fn spawner(current_count: usize, max_count: usize, current_kill: usize, max_kill: usize) -> MobSpawner {
    MobSpawner {
        mob_type: Enemies::Block,
        max_count,
        current_count,
        max_kill,
        current_kill,
        spawner_id: SpawnId { id: 5 },
    }
}

#[test]
fn spawner_sends_an_enemy_when_timer_is_up_and_room_is_left() {
    let mut s = spawner(0, 2, 0, 10);
    assert_eq!(mob_spawn_system(&mut s, false, 4), None);
    assert_eq!(s.current_count, 0);
    let sent = mob_spawn_system(&mut s, true, 4);
    assert_eq!(
        sent,
        Some(MobSpawnEvent { mob_type: Enemies::Block, spawner_id: SpawnId { id: 5 }, map_level: 4 })
    );
    assert_eq!(s.current_count, 1);
    assert!(mob_spawn_system(&mut s, true, 4).is_some());
    assert_eq!(s.current_count, 2);
    assert_eq!(mob_spawn_system(&mut s, true, 4), None);
    assert_eq!(s.current_count, 2);
}

#[test]
fn spawner_counts_its_own_enemies_that_leave() {
    let mut s = spawner(2, 2, 0, 10);
    let killed = MobDespawnEvent {
        enemy_entity: 1,
        spawner_id: SpawnId { id: 5 },
        reason: EnemyDespawnReason::Killed,
    };
    assert_eq!(mob_despawn_system(&mut s, &killed), Some(PlayerUpdateEvent::Bricks(1)));
    assert_eq!((s.current_count, s.current_kill), (1, 1));
    let through = MobDespawnEvent { reason: EnemyDespawnReason::ReachedEnd, ..killed };
    assert_eq!(mob_despawn_system(&mut s, &through), None);
    assert_eq!((s.current_count, s.current_kill), (0, 1));
    let stuck = MobDespawnEvent { reason: EnemyDespawnReason::Stuck, ..killed };
    assert_eq!(mob_despawn_system(&mut s, &stuck), None);
    assert_eq!((s.current_count, s.current_kill), (0, 1));
    let other = MobDespawnEvent { spawner_id: SpawnId { id: 6 }, ..killed };
    assert_eq!(mob_despawn_system(&mut s, &other), None);
    assert_eq!((s.current_count, s.current_kill), (0, 1));
}

#[test]
fn level_goes_up_when_every_spawner_has_its_kills() {
    assert_eq!(level_up_on_kills_reached(&vec![]), None);
    assert_eq!(level_up_on_kills_reached(&vec![spawner(0, 1, 9, 10)]), None);
    assert_eq!(
        level_up_on_kills_reached(&vec![spawner(0, 1, 10, 10)]),
        Some(LevelMap::LevelUp(1))
    );
    assert_eq!(
        level_up_on_kills_reached(&vec![spawner(0, 1, 12, 10), spawner(0, 1, 3, 10)]),
        None
    );
    assert_eq!(
        level_up_on_kills_reached(&vec![spawner(0, 1, 12, 10), spawner(0, 1, 0, 0)]),
        Some(LevelMap::LevelUp(1))
    );
}
