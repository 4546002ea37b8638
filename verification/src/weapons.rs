//! The weapons of the towers, and the projectiles on their way out.

use std::collections::HashSet;
use vstd::prelude::*;

pub mod weapon;

verus! {

broadcast use vstd::std_specs::hash::group_hash_axioms;

/// The projectiles that are on their way out of the arena.
#[derive(Debug)]
pub struct ScheduledForDespawnProjectile(pub HashSet<u64>);

impl View for ScheduledForDespawnProjectile {
    type V = Set<u64>;

    open spec fn view(&self) -> Set<u64> {
        self.0@
    }
}

impl ScheduledForDespawnProjectile {
    pub fn new() -> (s: ScheduledForDespawnProjectile)
        ensures
            s@ == Set::<u64>::empty(),
    {
        ScheduledForDespawnProjectile(HashSet::new())
    }

    pub fn insert(&mut self, entity: u64)
        ensures
            final(self)@ == old(self)@.insert(entity),
    {
        self.0.insert(entity);
    }

    pub fn contains(&self, entity: &u64) -> (b: bool)
        ensures
            b == self@.contains(*entity),
    {
        self.0.contains(entity)
    }

    pub fn remove(&mut self, entity: &u64)
        ensures
            final(self)@ == old(self)@.remove(*entity),
    {
        self.0.remove(entity);
    }

    pub fn clear(&mut self)
        ensures
            final(self)@ == Set::<u64>::empty(),
    {
        self.0.clear();
    }

    pub fn len(&self) -> (n: usize)
        ensures
            n == self@.len(),
    {
        self.0.len()
    }
}

/// The notice that a projectile leaves the arena.
#[derive(Debug, Clone, Copy, PartialEq, Eq, Structural)]
pub struct DespawnProjectileEvent {
    pub projectile_entity: u64,
}

} // verus!
