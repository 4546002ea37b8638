//! The level of the map.

use vstd::prelude::*;

verus! {

/// The level that the map is played at.
#[derive(Debug, Clone, Copy)]
pub struct MapLevel {
    pub level: u32,
}

impl Default for MapLevel {
    /// The first level.
    fn default() -> (m: MapLevel)
        ensures
            m.level == 1,
    {
        MapLevel { level: 1 }
    }
}

/// A change of the map's level.
#[derive(Debug, Clone, Copy, PartialEq, Eq, Structural)]
pub enum LevelMap {
    LevelUp(u32),
    LevelDown(u32),
}

impl LevelMap {
    /// The level that `level` becomes by this change: raised or lowered by
    /// the amount, and held at the ends of the range.
    pub open spec fn applied_to(self, level: u32) -> u32 {
        match self {
            LevelMap::LevelUp(amount) => if level + amount > u32::MAX {
                u32::MAX
            } else {
                (level + amount) as u32
            },
            LevelMap::LevelDown(amount) => if level < amount {
                0
            } else {
                (level - amount) as u32
            },
        }
    }
}

/// The level after the changes `events`, one after the other.
pub open spec fn level_after(level: u32, events: Seq<LevelMap>) -> u32
    decreases events.len(),
{
    if events.len() == 0 {
        level
    } else {
        events.last().applied_to(level_after(level, events.drop_last()))
    }
}

/// Applies the changes `events` to the level, one after the other.
pub fn level_up_map_system(level: &mut MapLevel, events: &Vec<LevelMap>)
    ensures
        final(level).level == level_after(old(level).level, events@),
{
    let mut i: usize = 0;
    while i < events.len()
        invariant
            i <= events.len(),
            level.level == level_after(old(level).level, events@.take(i as int)),
        decreases events.len() - i,
    {
        proof {
            assert(events@.take(i + 1).drop_last() == events@.take(i as int));
        }
        match events[i] {
            LevelMap::LevelUp(amount) => {
                level.level = level.level.saturating_add(amount);
            },
            LevelMap::LevelDown(amount) => {
                level.level = level.level.saturating_sub(amount);
            },
        }
        i += 1;
    }
    proof {
        assert(events@.take(events.len() as int) == events@);
    }
}

} // verus!
