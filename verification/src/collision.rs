//! What happens when a projectile meets an enemy.

use crate::arena::grid::Cell;
use crate::mob::effects::{EffectType, StatusEffect};
use crate::mob::enemy::ScheduledForDespawnEnemy;
use crate::mob::{EnemyDespawnReason, EnemyUnit, MobDespawnEvent};
use crate::towers::{TowerData, TowerLevelUp, TowerLevelUpReason};
use crate::weapons::weapon::{ProjectileData, WeaponTypes};
use crate::weapons::{DespawnProjectileEvent, ScheduledForDespawnProjectile};
use vstd::prelude::*;

verus! {

/// What can collide with what.
#[derive(Debug, Clone, Copy, PartialEq, Eq, Structural)]
pub enum GameLayer {
    Projectile,
    Enemy,
    Tower,
}

/// Types of collisions
#[derive(Debug, Clone, Copy, PartialEq, Eq, Structural)]
pub enum CollisionTypes {
    /// A projectile has collided with an enemy.
    ProjectileToEnemy {
        mob_entity: u64,
        projectile_entity: u64,
        projectile_data: ProjectileData,
        tile: Cell,
    },
}

/// What a projectile did to one enemy.
#[derive(Debug, Clone, Copy, PartialEq, Eq, Structural)]
pub enum Struck {
    /// The enemy was without health: it leaves the arena, and the tower
    /// learns from the kill. The notices are those to send; there is none
    /// for an enemy that is on its way out already.
    Dead { despawn: Option<MobDespawnEvent>, level_up: Option<TowerLevelUp> },
    /// The enemy lost health and took on the projectile's effect.
    Hit,
    /// The projectile did not reach the enemy.
    Missed,
}

/// More than this many projectiles on their way out are forgotten.
pub const SCHEDULE_LIMIT: usize = 99_000;

/// Whether a collision counts: not if the projectile or the enemy is on its
/// way out already. Where it counts and more projectiles are on their way
/// out than the limit allows, they are forgotten first.
pub fn collision_counts(
    projectiles: &mut ScheduledForDespawnProjectile,
    enemies: &ScheduledForDespawnEnemy,
    event: &CollisionTypes,
) -> (counted: bool)
    ensures
        counted == (!old(projectiles)@.contains(event->projectile_entity) && !enemies@.contains(
            event->mob_entity,
        )),
        final(projectiles)@ == if counted && old(projectiles)@.len() > SCHEDULE_LIMIT {
            Set::<u64>::empty()
        } else {
            old(projectiles)@
        },
{
    match event {
        CollisionTypes::ProjectileToEnemy { mob_entity, projectile_entity, .. } => {
            if projectiles.contains(projectile_entity) || enemies.contains(mob_entity) {
                return false;
            }
            if projectiles.len() > SCHEDULE_LIMIT {
                projectiles.clear();
            }
            true
        },
    }
}

/// What the projectile of a collision does to the enemy `entity`, which
/// shares the projectile's cell if `same_tile`. `tower` holds what is known
/// of the kind of the tower that the projectile came from, if that tower
/// still stands.
///
/// An enemy without health leaves the arena. Any other is hit if it is the
/// one that the projectile collided with, or shares the cell of a projectile
/// that strikes the whole cell: it loses health by the projectile's damage,
/// down to none, and takes on the projectile's effect if the tower is
/// known.
pub fn strike_enemy(
    unit: &mut EnemyUnit,
    entity: u64,
    same_tile: bool,
    event: &CollisionTypes,
    tower: Option<TowerData>,
    enemies: &mut ScheduledForDespawnEnemy,
) -> (struck: Struck)
    requires
        old(unit).status_effects.wf(),
    ensures
        final(unit).status_effects.wf(),
        final(unit).same_unit(
            EnemyUnit { health: final(unit).health, ..*old(unit) },
        ),
        final(unit).next_position == old(unit).next_position,
        ({
            let mob_entity = event->mob_entity;
            let projectile_data = event->projectile_data;
            let source = projectile_data.source_entity;
            if old(unit).health == 0 {
                &&& struck == (Struck::Dead {
                    despawn: if old(enemies)@.contains(entity) {
                        None
                    } else {
                        Some(
                            MobDespawnEvent {
                                enemy_entity: entity,
                                spawner_id: old(unit).spawner_id,
                                reason: EnemyDespawnReason::Killed,
                            },
                        )
                    },
                    level_up: if old(enemies)@.contains(entity) || source is None {
                        None
                    } else {
                        Some(
                            TowerLevelUp {
                                entity: source->0,
                                reason: TowerLevelUpReason::Kill,
                                enemy_experience: old(unit).experience,
                            },
                        )
                    },
                })
                &&& final(unit).health == 0
                &&& final(unit).status_effects@ == old(unit).status_effects@
                &&& final(enemies)@ == old(enemies)@.insert(entity)
            } else if entity == mob_entity || (projectile_data.area_of_effect && same_tile) {
                &&& struck == Struck::Hit
                &&& final(unit).health == if old(unit).health < projectile_data.damage {
                    0
                } else {
                    (old(unit).health - projectile_data.damage) as usize
                }
                &&& final(unit).status_effects@ == if source is Some && tower is Some
                    && projectile_data.weapon_type == WeaponTypes::Ice {
                    old(unit).status_effects@.insert(
                        EffectType::Slow,
                        StatusEffect {
                            effect_type: EffectType::Slow,
                            remaining: (tower->0.status_effect.duration * 1000) as u64,
                            potency: tower->0.status_effect.potency,
                        },
                    )
                } else {
                    old(unit).status_effects@
                }
                &&& final(enemies)@ == old(enemies)@
            } else {
                &&& struck == Struck::Missed
                &&& final(unit).health == old(unit).health
                &&& final(unit).status_effects@ == old(unit).status_effects@
                &&& final(enemies)@ == old(enemies)@
            }
        }),
{
    match event {
        CollisionTypes::ProjectileToEnemy { mob_entity, projectile_data, .. } => {
            if unit.health == 0 {
                if enemies.contains(&entity) {
                    assert(enemies@.insert(entity) =~= enemies@);
                    return Struck::Dead { despawn: None, level_up: None };
                }
                enemies.insert(entity);
                let despawn = MobDespawnEvent {
                    enemy_entity: entity,
                    spawner_id: unit.spawner_id,
                    reason: EnemyDespawnReason::Killed,
                };
                let level_up = match projectile_data.source_entity {
                    Some(tower_entity) => Some(
                        TowerLevelUp {
                            entity: tower_entity,
                            reason: TowerLevelUpReason::Kill,
                            enemy_experience: unit.experience,
                        },
                    ),
                    None => None,
                };
                Struck::Dead { despawn: Some(despawn), level_up }
            } else if entity == *mob_entity || (projectile_data.area_of_effect && same_tile) {
                unit.health = unit.health.saturating_sub(projectile_data.damage);
                if projectile_data.source_entity.is_some() {
                    if let Some(tower_data) = tower {
                        let status = projectile_data.status_effect(&tower_data);
                        unit.insert_status(status);
                    }
                }
                Struck::Hit
            } else {
                Struck::Missed
            }
        },
    }
}

/// After a collision the projectile leaves the arena, once: the notice is
/// returned unless the projectile is on its way out already, and then it
/// is.
pub fn retire_projectile(projectiles: &mut ScheduledForDespawnProjectile, event: &CollisionTypes) -> (notice:
    Option<DespawnProjectileEvent>)
    ensures
        notice == if old(projectiles)@.contains(event->projectile_entity) {
            None
        } else {
            Some(DespawnProjectileEvent { projectile_entity: event->projectile_entity })
        },
        final(projectiles)@ == old(projectiles)@.insert(event->projectile_entity),
{
    match event {
        CollisionTypes::ProjectileToEnemy { projectile_entity, .. } => {
            if projectiles.contains(projectile_entity) {
                assert(projectiles@.insert(*projectile_entity) =~= projectiles@);
                None
            } else {
                projectiles.insert(*projectile_entity);
                Some(DespawnProjectileEvent { projectile_entity: *projectile_entity })
            }
        },
    }
}

} // verus!
