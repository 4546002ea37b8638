//! How an enemy follows its route, tick by tick, and how spawners keep
//! count of their enemies.

use crate::arena::grid::{adjacent, Cell, Grid, GridView};
use crate::arena::path_finding::{bfs_route, path_mob_finding, second_cell};
use crate::mob::effects::{speed_percent, ticked};
use crate::mob::{
    Enemies, EnemyDespawnReason, EnemyUnit, MobDespawnEvent, MobSpawnEvent, SpawnId, SpawnIds,
};
use crate::player::PlayerUpdateEvent;
use crate::ui::level::LevelMap;
use std::collections::HashSet;
use vstd::prelude::*;

verus! {

broadcast use vstd::std_specs::hash::group_hash_axioms;

/// What a unit does in one tick.
#[derive(Debug, Clone, Copy, PartialEq, Eq, Structural)]
pub enum Step {
    /// It moves toward the cell `toward`, at `speed_percent` hundredths of
    /// its base speed.
    Move { toward: Cell, speed_percent: u32 },
    /// It has to choose its way while it stands on the goal: it has come
    /// through.
    AtGoal,
    /// It has to choose its way and no route leads from its cell to the
    /// goal.
    Stuck,
}

impl EnemyUnit {
    /// Whether the unit has to choose the cell to head for: it has none, or
    /// has arrived at it, or it is no longer free.
    pub open spec fn must_choose(self, v: GridView, arrived: bool) -> bool {
        match self.next_position {
            None => true,
            Some(w) => arrived || !v.free(w),
        }
    }

    /// What the unit does in a tick on the grid `v`, standing on the cell
    /// `at`.
    pub open spec fn step_on(self, v: GridView, at: Cell, arrived: bool) -> Step {
        if !self.must_choose(v, arrived) {
            Step::Move {
                toward: self.next_position->0,
                speed_percent: speed_percent(self.status_effects@),
            }
        } else if at == v.goal {
            Step::AtGoal
        } else {
            match second_cell(bfs_route(v.size, v.blocked, at, v.goal)) {
                Some(c) => Step::Move {
                    toward: c,
                    speed_percent: speed_percent(self.status_effects@),
                },
                None => Step::Stuck,
            }
        }
    }

    /// The same unit but for the cell it heads for and its effects.
    pub open spec fn same_unit(self, other: EnemyUnit) -> bool {
        &&& self.mob_type == other.mob_type
        &&& self.spawner_id == other.spawner_id
        &&& self.health == other.health
        &&& self.experience == other.experience
        &&& self.bricks == other.bricks
    }

    /// Whether the unit has to choose the cell to head for.
    pub fn choice_due(&self, grid: &Grid, arrived: bool) -> (due: bool)
        requires
            grid.wf(),
        ensures
            due == self.must_choose(grid@, arrived),
    {
        match self.next_position {
            None => true,
            Some(w) => arrived || !grid.in_bounds(&w) || grid.is_occupied(&w),
        }
    }

    /// Moves on toward `toward`: the speed is that of the effects as they
    /// stand, and then the time `dt` passes for them.
    pub fn advance(&mut self, toward: Cell, dt: u64) -> (step: Step)
        requires
            old(self).status_effects.wf(),
        ensures
            step == (Step::Move { toward, speed_percent: speed_percent(old(self).status_effects@) }),
            final(self).next_position == Some(toward),
            final(self).status_effects.wf(),
            final(self).status_effects@ == ticked(old(self).status_effects@, dt),
            final(self).same_unit(*old(self)),
    {
        let percent = self.status_effects.speed_percent();
        self.next_position = Some(toward);
        self.status_effects.tick(dt);
        Step::Move { toward, speed_percent: percent }
    }

    /// Acts on what the search for the next cell gave: with a cell the unit
    /// heads for it and moves; without one it is stuck and stays as it is.
    pub fn take_step(&mut self, planned: Option<Cell>, dt: u64) -> (step: Step)
        requires
            old(self).status_effects.wf(),
        ensures
            final(self).status_effects.wf(),
            final(self).same_unit(*old(self)),
            planned matches Some(c) ==> {
                &&& step == (Step::Move {
                    toward: c,
                    speed_percent: speed_percent(old(self).status_effects@),
                })
                &&& final(self).next_position == Some(c)
                &&& final(self).status_effects@ == ticked(old(self).status_effects@, dt)
            },
            planned is None ==> {
                &&& step == Step::Stuck
                &&& final(self).next_position == old(self).next_position
                &&& final(self).status_effects@ == old(self).status_effects@
            },
    {
        match planned {
            Some(c) => self.advance(c, dt),
            None => Step::Stuck,
        }
    }

    /// Heads for `next` if that is a cell, and returns it.
    pub fn redirect(&mut self, next: Option<Cell>) -> (taken: Option<Cell>)
        ensures
            taken == next,
            final(self).next_position == if next is Some { next } else { old(self).next_position },
            final(self).status_effects == old(self).status_effects,
            final(self).same_unit(*old(self)),
    {
        if next.is_some() {
            self.next_position = next;
        }
        next
    }
}

/// One tick of a unit that stands on the cell `at` of the grid, `arrived`
/// telling whether it has come to the cell it was heading for, `dt` the time
/// that the tick lasts.
///
/// A unit that has no cell to head for, has arrived at it or finds it
/// blocked chooses anew: the cell after `at` on a shortest route to the
/// goal. On the goal itself it has come through; without a route it is
/// stuck; either way it stays as it is. Otherwise it moves, and time passes
/// for its effects.
pub fn follow_path(unit: &mut EnemyUnit, grid: &Grid, at: Cell, arrived: bool, dt: u64) -> (step:
    Step)
    requires
        grid.wf(),
        old(unit).status_effects.wf(),
    ensures
        step == old(unit).step_on(grid@, at, arrived),
        final(unit).status_effects.wf(),
        final(unit).same_unit(*old(unit)),
        step matches Step::Move { toward, speed_percent } ==> {
            &&& final(unit).next_position == Some(toward)
            &&& final(unit).status_effects@ == ticked(old(unit).status_effects@, dt)
            &&& grid@.free(toward)
            &&& 1 <= speed_percent <= 100
            &&& old(unit).must_choose(grid@, arrived) ==> adjacent(at, toward) && grid@.reachable(
                toward,
                grid@.goal,
            )
        },
        !(step is Move) ==> {
            &&& final(unit).next_position == old(unit).next_position
            &&& final(unit).status_effects@ == old(unit).status_effects@
        },
        step is AtGoal <==> old(unit).must_choose(grid@, arrived) && at == grid@.goal,
        step is Stuck <==> old(unit).must_choose(grid@, arrived) && !grid@.reachable(at, grid@.goal),
{
    if unit.choice_due(grid, arrived) {
        let goal = grid.goal();
        if at.is(&goal) {
            proof {
                assert(grid@.is_route(seq![at], at, grid@.goal));
            }
            return Step::AtGoal;
        }
        let planned = path_mob_finding(grid, at);
        unit.take_step(planned, dt)
    } else {
        let toward = unit.next_position.unwrap();
        unit.advance(toward, dt)
    }
}

/// A unit that would pass the cell it heads for looks for the cell after
/// the one it stands on, `at`, and heads for that if there is one. Without
/// one it keeps its aim, and is to stop there.
pub fn overshoot(unit: &mut EnemyUnit, grid: &Grid, at: Cell) -> (next: Option<Cell>)
    requires
        grid.wf(),
    ensures
        next == second_cell(bfs_route(grid@.size, grid@.blocked, at, grid@.goal)),
        next is Some <==> at != grid@.goal && grid@.reachable(at, grid@.goal),
        next matches Some(c) ==> adjacent(at, c) && grid@.free(c),
        final(unit).next_position == if next is Some { next } else { old(unit).next_position },
        final(unit).status_effects == old(unit).status_effects,
        final(unit).same_unit(*old(unit)),
{
    let planned = path_mob_finding(grid, at);
    unit.redirect(planned)
}

/// A unit that has come to the goal, and is not on its way out already, is
/// sent back: it has no cell to head for any more, and what is returned is
/// the cell to put it on, the grid's start, with the damage that it did to
/// the player in passing.
pub fn trigger_move_to_start_position(
    unit: &mut EnemyUnit,
    grid: &Grid,
    on_goal: bool,
    scheduled: bool,
    map_level: u32,
) -> (back: Option<(Cell, PlayerUpdateEvent)>)
    ensures
        back is Some <==> on_goal && !scheduled,
        back matches Some((cell, event)) ==> cell == grid@.start && event
            == PlayerUpdateEvent::Damage(if map_level >= 19 { 20 } else { (map_level + 1) as u32 }),
        final(unit).next_position == if back is Some { None } else { old(unit).next_position },
        final(unit).status_effects == old(unit).status_effects,
        final(unit).same_unit(*old(unit)),
{
    if scheduled || !on_goal {
        return None;
    }
    unit.next_position = None;
    Some((grid.start(), PlayerUpdateEvent::Damage(unit.mob_type.damage(map_level))))
}

/// The enemies that are on their way out of the arena.
#[derive(Debug)]
pub struct ScheduledForDespawnEnemy(pub HashSet<u64>);

impl View for ScheduledForDespawnEnemy {
    type V = Set<u64>;

    open spec fn view(&self) -> Set<u64> {
        self.0@
    }
}

impl ScheduledForDespawnEnemy {
    pub fn new() -> (s: ScheduledForDespawnEnemy)
        ensures
            s@ == Set::<u64>::empty(),
    {
        ScheduledForDespawnEnemy(HashSet::new())
    }

    pub fn insert(&mut self, entity: u64)
        ensures
            final(self)@ == old(self)@.insert(entity),
    {
        self.0.insert(entity);
    }

    pub fn contains(&self, entity: &u64) -> (b: bool)
        ensures
            b == self@.contains(*entity),
    {
        self.0.contains(entity)
    }

    pub fn remove(&mut self, entity: &u64)
        ensures
            final(self)@ == old(self)@.remove(*entity),
    {
        self.0.remove(entity);
    }
}

/// Sends a stuck enemy out of the arena, once: the notice is returned unless
/// the enemy is on its way out already, and then it is.
pub fn despawn_stuck(schedule: &mut ScheduledForDespawnEnemy, entity: u64, unit: &EnemyUnit) -> (notice:
    Option<MobDespawnEvent>)
    ensures
        notice == if old(schedule)@.contains(entity) {
            None
        } else {
            Some(
                MobDespawnEvent {
                    enemy_entity: entity,
                    spawner_id: unit.spawner_id,
                    reason: EnemyDespawnReason::Stuck,
                },
            )
        },
        final(schedule)@ == old(schedule)@.insert(entity),
{
    if schedule.contains(&entity) {
        assert(schedule@.insert(entity) =~= schedule@);
        return None;
    }
    schedule.insert(entity);
    Some(
        MobDespawnEvent {
            enemy_entity: entity,
            spawner_id: unit.spawner_id,
            reason: EnemyDespawnReason::Stuck,
        },
    )
}

/// A spawner: the kind of enemy that it sends out, how many of them may be
/// out at once, and how many have to be killed before the level is won.
#[derive(Debug, Clone, Copy)]
pub struct MobSpawner {
    pub mob_type: Enemies,
    pub max_count: usize,
    pub current_count: usize,
    pub max_kill: usize,
    pub current_kill: usize,
    pub spawner_id: SpawnId,
}

/// Twice `level`, or the largest number where that does not fit.
pub open spec fn twice(level: u32) -> usize {
    if 2 * level > usize::MAX {
        usize::MAX
    } else {
        (2 * level) as usize
    }
}

/// Ten times `level`, or the largest number where that does not fit.
pub open spec fn tenfold(level: u32) -> usize {
    if 10 * level > usize::MAX {
        usize::MAX
    } else {
        (10 * level) as usize
    }
}

/// Where no spawner is out, one is set up for the level: of blocks, with
/// room for twice the level's number of enemies at once and ten times its
/// number to kill, under a new name.
pub fn deploy_mod_spawners(spawners: usize, map_level: u32, ids: &mut SpawnIds) -> (deployed: Option<
    MobSpawner,
>)
    ensures
        deployed is Some <==> spawners == 0,
        deployed matches Some(s) ==> {
            &&& s.mob_type == Enemies::Block
            &&& s.max_count == twice(map_level)
            &&& s.current_count == 0
            &&& s.max_kill == tenfold(map_level)
            &&& s.current_kill == 0
            &&& s.spawner_id.id == old(ids).upcoming()
        },
        final(ids).upcoming() == if deployed is None {
            old(ids).upcoming()
        } else if old(ids).upcoming() == usize::MAX {
            0
        } else {
            (old(ids).upcoming() + 1) as usize
        },
{
    if spawners != 0 {
        return None;
    }
    let level: usize = map_level as usize;
    let max_count: usize = if level > usize::MAX / 2 { usize::MAX } else { 2 * level };
    let max_kill: usize = if level > usize::MAX / 10 { usize::MAX } else { 10 * level };
    Some(
        MobSpawner {
            mob_type: Enemies::Block,
            max_count,
            current_count: 0,
            max_kill,
            current_kill: 0,
            spawner_id: ids.allocate(),
        },
    )
}

/// When its timer has run out, a spawner with room for one more enemy sends
/// one out and counts it.
pub fn mob_spawn_system(spawner: &mut MobSpawner, timer_finished: bool, map_level: u32) -> (sent:
    Option<MobSpawnEvent>)
    ensures
        sent is Some <==> timer_finished && old(spawner).current_count < old(spawner).max_count,
        sent matches Some(e) ==> e == (MobSpawnEvent {
            mob_type: old(spawner).mob_type,
            spawner_id: old(spawner).spawner_id,
            map_level,
        }),
        *final(spawner) == (MobSpawner {
            current_count: if sent is Some {
                (old(spawner).current_count + 1) as usize
            } else {
                old(spawner).current_count
            },
            ..*old(spawner)
        }),
{
    if timer_finished && spawner.current_count < spawner.max_count {
        spawner.current_count += 1;
        Some(
            MobSpawnEvent {
                mob_type: spawner.mob_type,
                spawner_id: spawner.spawner_id,
                map_level,
            },
        )
    } else {
        None
    }
}

/// A spawner takes note that one of its enemies has left the arena: one less
/// is out, and if it was killed, one more is killed and the player earns a
/// brick. The enemies of other spawners do not concern it. The count of the
/// killed has to fit.
pub fn mob_despawn_system(spawner: &mut MobSpawner, event: &MobDespawnEvent) -> (earned: Option<
    PlayerUpdateEvent,
>)
    requires
        event.spawner_id == old(spawner).spawner_id && event.reason == EnemyDespawnReason::Killed
            ==> old(spawner).current_kill < usize::MAX,
    ensures
        earned == if event.spawner_id == old(spawner).spawner_id && event.reason
            == EnemyDespawnReason::Killed {
            Some(PlayerUpdateEvent::Bricks(1))
        } else {
            None
        },
        event.spawner_id != old(spawner).spawner_id ==> *final(spawner) == *old(spawner),
        event.spawner_id == old(spawner).spawner_id ==> *final(spawner) == (MobSpawner {
            current_count: if old(spawner).current_count == 0 {
                0
            } else {
                (old(spawner).current_count - 1) as usize
            },
            current_kill: if event.reason == EnemyDespawnReason::Killed {
                (old(spawner).current_kill + 1) as usize
            } else {
                old(spawner).current_kill
            },
            ..*old(spawner)
        }),
{
    if spawner.spawner_id.id != event.spawner_id.id {
        return None;
    }
    spawner.current_count = spawner.current_count.saturating_sub(1);
    match event.reason {
        EnemyDespawnReason::Killed => {
            spawner.current_kill += 1;
            Some(PlayerUpdateEvent::Bricks(1))
        },
        _ => None,
    }
}

/// The map goes up a level when there are spawners and each has as many
/// kills as it needs.
pub fn level_up_on_kills_reached(spawners: &Vec<MobSpawner>) -> (change: Option<LevelMap>)
    ensures
        change == if spawners@.len() > 0 && forall|i: int|
            0 <= i < spawners@.len() ==> (#[trigger] spawners@[i]).current_kill
                >= spawners@[i].max_kill {
            Some(LevelMap::LevelUp(1))
        } else {
            None
        },
{
    if spawners.len() == 0 {
        return None;
    }
    let mut i: usize = 0;
    while i < spawners.len()
        invariant
            i <= spawners@.len(),
            forall|j: int|
                0 <= j < i ==> (#[trigger] spawners@[j]).current_kill >= spawners@[j].max_kill,
        decreases spawners@.len() - i,
    {
        if spawners[i].current_kill < spawners[i].max_kill {
            return None;
        }
        i += 1;
    }
    Some(LevelMap::LevelUp(1))
}

} // verus!
