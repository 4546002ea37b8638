use rusty_apple::player::{
    level_down_on_death, player_update_system, update, Player, PlayerAction, PlayerComponent,
    PlayerUpdateEvent,
};
use rusty_apple::state::AppState;
use rusty_apple::ui::level::{level_up_map_system, LevelMap, MapLevel};

#[test]
fn player_starts_with_full_health_and_five_bricks() {
    let p = Player::default();
    assert_eq!((p.hp, p.bricks), (100, 5));
}

#[test]
fn remove_bricks_pays_only_what_is_there() {
    let mut p = Player::default();
    assert!(p.remove_bricks(3));
    assert_eq!(p.bricks, 2);
    assert!(!p.remove_bricks(3));
    assert_eq!(p.bricks, 2);
    assert!(p.remove_bricks(2));
    assert_eq!(p.bricks, 0);
    assert!(p.remove_bricks(0));
    assert_eq!(p.hp, 100);
}

#[test]
fn update_applies_events_in_order() {
    let mut p = Player::default();
    update(
        &mut p,
        &vec![
            PlayerUpdateEvent::Damage(30),
            PlayerUpdateEvent::Bricks(4),
            PlayerUpdateEvent::Build(7),
            PlayerUpdateEvent::Build(7),
            PlayerUpdateEvent::Score(9),
        ],
    );
    assert_eq!((p.hp, p.bricks), (70, 2));
    update(&mut p, &vec![PlayerUpdateEvent::Damage(200), PlayerUpdateEvent::Bricks(u32::MAX)]);
    assert_eq!((p.hp, p.bricks), (0, u32::MAX));
    update(&mut p, &vec![]);
    assert_eq!((p.hp, p.bricks), (0, u32::MAX));
}

#[test]
fn a_dead_player_is_revived_at_the_price_of_five_levels() {
    let mut p = Player { hp: 0, bricks: 3 };
    assert_eq!(level_down_on_death(&mut p), Some(LevelMap::LevelDown(5)));
    assert_eq!((p.hp, p.bricks), (100, 3));
    assert_eq!(level_down_on_death(&mut p), None);
    assert_eq!((p.hp, p.bricks), (100, 3));
}

#[test]
fn points_are_added_for_every_score() {
    let mut p = PlayerComponent { health: 3, points: 0 };
    player_update_system(
        &mut p,
        &vec![
            PlayerUpdateEvent::add_points(5),
            PlayerUpdateEvent::Damage(2),
            PlayerUpdateEvent::Score(7),
        ],
    );
    assert_eq!((p.health, p.points), (3, 12));
    assert_eq!(PlayerUpdateEvent::add_points(4), PlayerUpdateEvent::Score(4));
    assert_eq!(PlayerAction::Fire, PlayerAction::Fire);
}

#[test]
fn map_level_goes_up_and_down_within_its_range() {
    let mut level = MapLevel::default();
    assert_eq!(level.level, 1);
    level_up_map_system(&mut level, &vec![LevelMap::LevelUp(1), LevelMap::LevelUp(3)]);
    assert_eq!(level.level, 5);
    level_up_map_system(&mut level, &vec![LevelMap::LevelDown(2)]);
    assert_eq!(level.level, 3);
    level_up_map_system(&mut level, &vec![LevelMap::LevelDown(5), LevelMap::LevelUp(2)]);
    assert_eq!(level.level, 2);
    level_up_map_system(&mut level, &vec![LevelMap::LevelUp(u32::MAX)]);
    assert_eq!(level.level, u32::MAX);
    level_up_map_system(&mut level, &vec![]);
    assert_eq!(level.level, u32::MAX);
}

#[test]
fn the_application_starts_in_the_start_menu() {
    assert_eq!(AppState::default(), AppState::StartMenu);
}
