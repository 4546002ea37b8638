//! The units that walk the arena, what ails them, and where they come from.

use crate::arena::grid::Cell;
use vstd::prelude::*;

pub mod effects;
pub mod enemy;

verus! {

/// The kinds of enemy.
#[derive(Debug, Copy, Clone, Hash, PartialEq, Eq, Structural)]
pub enum Enemies {
    Block,
}

/// Names a spawner.
#[derive(Debug, Clone, Copy, Eq, PartialEq, Hash, Structural)]
pub struct SpawnId {
    pub id: usize,
}

/// Hands out the names of spawners, each once, counting up from where it
/// stands and starting over after the last number.
#[derive(Debug)]
pub struct SpawnIds {
    next: usize,
}

impl SpawnIds {
    /// The number that is handed out next.
    pub closed spec fn upcoming(&self) -> usize {
        self.next
    }

    /// A counter that starts at zero.
    pub fn new() -> (ids: SpawnIds)
        ensures
            ids.upcoming() == 0,
    {
        SpawnIds { next: 0 }
    }

    /// The next name.
    pub fn allocate(&mut self) -> (id: SpawnId)
        ensures
            id.id == old(self).upcoming(),
            final(self).upcoming() == if old(self).upcoming() == usize::MAX {
                0
            } else {
                (old(self).upcoming() + 1) as usize
            },
    {
        let id = SpawnId { id: self.next };
        self.next = if self.next == usize::MAX { 0 } else { self.next + 1 };
        id
    }
}

/// Why an enemy leaves the arena.
#[derive(Debug, Clone, Copy, PartialEq, Eq, Structural)]
pub enum EnemyDespawnReason {
    /// Its health ran out.
    Killed,
    /// It came through to the goal.
    ReachedEnd,
    /// No route led on from where it stood.
    Stuck,
}

/// The notice that an enemy leaves the arena.
#[derive(Debug, Clone, Copy, PartialEq, Eq, Structural)]
pub struct MobDespawnEvent {
    pub enemy_entity: u64,
    pub spawner_id: SpawnId,
    pub reason: EnemyDespawnReason,
}

/// The notice that a spawner sends out an enemy.
#[derive(Debug, Clone, Copy, PartialEq, Eq, Structural)]
pub struct MobSpawnEvent {
    pub mob_type: Enemies,
    pub spawner_id: SpawnId,
    pub map_level: u32,
}

/// One enemy on its way across the arena.
#[derive(Debug)]
pub struct EnemyUnit {
    pub mob_type: Enemies,
    pub spawner_id: SpawnId,
    pub health: usize,
    /// The cell that the unit is heading for, if it has chosen one.
    pub next_position: Option<Cell>,
    pub experience: usize,
    pub bricks: usize,
    pub status_effects: effects::StatusEffects,
}

impl Enemies {
    /// The damage that an enemy does when it comes through: one more than
    /// the level of the map, and twenty at most.
    pub fn damage(&self, map_level: u32) -> (d: u32)
        ensures
            d == if map_level >= 19 { 20 } else { map_level + 1 },
    {
        match self {
            Enemies::Block => if map_level >= 19 {
                20
            } else {
                1 + map_level
            },
        }
    }

    /// A fresh unit of this kind from the spawner `id`, at the level
    /// `map_level`: one brick, no route chosen, no effect; health three times
    /// the square of the level, and one experience more for every three
    /// levels. The health has to fit the machine's numbers.
    pub fn into_unit(&self, id: SpawnId, map_level: u32) -> (unit: EnemyUnit)
        requires
            map_level * map_level <= u32::MAX,
            3 * (map_level * map_level) <= usize::MAX,
        ensures
            unit.mob_type == *self,
            unit.spawner_id == id,
            unit.health == 3 * (map_level * map_level),
            unit.next_position is None,
            unit.experience == 1 + map_level / 3,
            unit.bricks == 1,
            unit.status_effects.wf(),
            unit.status_effects@ == Map::<effects::EffectType, effects::StatusEffect>::empty(),
    {
        let mut base = EnemyUnit {
            mob_type: *self,
            spawner_id: id,
            health: 1,
            next_position: None,
            experience: 1,
            bricks: 1,
            status_effects: effects::StatusEffects::new(),
        };
        match self {
            Enemies::Block => {
                let square: u32 = map_level * map_level;
                base.health = 3 * (square as usize);
                base.experience += map_level as usize / 3;
            },
        }
        base
    }
}

impl EnemyUnit {
    /// Puts `effect` on the unit, in place of any effect of the same kind.
    /// An effect of the kind `NoEffect` is not put on.
    pub fn insert_status(&mut self, effect: effects::StatusEffect)
        requires
            old(self).status_effects.wf(),
        ensures
            final(self).status_effects.wf(),
            final(self).status_effects@ == if effect.effect_type == effects::EffectType::NoEffect {
                old(self).status_effects@
            } else {
                old(self).status_effects@.insert(effect.effect_type, effect)
            },
            final(self).mob_type == old(self).mob_type,
            final(self).spawner_id == old(self).spawner_id,
            final(self).health == old(self).health,
            final(self).next_position == old(self).next_position,
            final(self).experience == old(self).experience,
            final(self).bricks == old(self).bricks,
    {
        if effect.effect_type.is_none() {
            return ;
        }
        self.status_effects.insert(effect);
    }
}

} // verus!
