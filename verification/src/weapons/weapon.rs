//! The kinds of weapon, what their projectiles do, and how they improve.

use crate::mob::effects::{EffectType, StatusEffect};
use crate::towers::{TowerData, TowerInfo, TowerTypes};
use vstd::prelude::*;

verus! {

/// The kinds of weapon.
#[derive(Debug, Copy, Clone, Hash, PartialEq, Eq, Structural)]
pub enum WeaponTypes {
    Laser,
    Fire,
    Ice,
    Rifle,
}

impl From<WeaponTypes> for EffectType {
    /// The effect of a weapon's projectiles: ice slows, the others have
    /// none.
    fn from(value: WeaponTypes) -> (effect: EffectType) {
        match value {
            WeaponTypes::Laser => EffectType::NoEffect,
            WeaponTypes::Fire => EffectType::NoEffect,
            WeaponTypes::Ice => EffectType::Slow,
            WeaponTypes::Rifle => EffectType::NoEffect,
        }
    }
}

impl vstd::std_specs::convert::FromSpecImpl<WeaponTypes> for EffectType {
    open spec fn obeys_from_spec() -> bool {
        true
    }

    open spec fn from_spec(value: WeaponTypes) -> EffectType {
        if value == WeaponTypes::Ice {
            EffectType::Slow
        } else {
            EffectType::NoEffect
        }
    }
}

impl From<TowerTypes> for WeaponTypes {
    /// The weapon of a kind of tower.
    fn from(value: TowerTypes) -> (weapon: WeaponTypes) {
        match value {
            TowerTypes::Basic => WeaponTypes::Laser,
            TowerTypes::Fire => WeaponTypes::Fire,
            TowerTypes::Ice => WeaponTypes::Ice,
            TowerTypes::Sniper => WeaponTypes::Rifle,
        }
    }
}

impl vstd::std_specs::convert::FromSpecImpl<TowerTypes> for WeaponTypes {
    open spec fn obeys_from_spec() -> bool {
        true
    }

    open spec fn from_spec(value: TowerTypes) -> WeaponTypes {
        match value {
            TowerTypes::Basic => WeaponTypes::Laser,
            TowerTypes::Fire => WeaponTypes::Fire,
            TowerTypes::Ice => WeaponTypes::Ice,
            TowerTypes::Sniper => WeaponTypes::Rifle,
        }
    }
}

/// What a volley of a weapon is: how many projectiles, the damage of each,
/// whether they strike every enemy on the cell, and the tower they come
/// from.
#[derive(Debug, Clone, Copy, PartialEq, Eq, Structural)]
pub struct ProjectileData {
    pub count: usize,
    pub damage: usize,
    pub weapon_type: WeaponTypes,
    pub area_of_effect: bool,
    pub source_entity: Option<u64>,
}

impl From<WeaponTypes> for ProjectileData {
    /// The first volley of a kind of weapon.
    fn from(value: WeaponTypes) -> (data: ProjectileData) {
        match value {
            WeaponTypes::Laser => ProjectileData {
                count: 1,
                damage: 3,
                weapon_type: WeaponTypes::Laser,
                area_of_effect: false,
                source_entity: None,
            },
            WeaponTypes::Fire => ProjectileData {
                count: 1,
                damage: 20,
                weapon_type: WeaponTypes::Fire,
                area_of_effect: true,
                source_entity: None,
            },
            WeaponTypes::Ice => ProjectileData {
                count: 4,
                damage: 1,
                weapon_type: WeaponTypes::Ice,
                area_of_effect: false,
                source_entity: None,
            },
            WeaponTypes::Rifle => ProjectileData {
                count: 1,
                damage: 30,
                weapon_type: WeaponTypes::Rifle,
                area_of_effect: false,
                source_entity: None,
            },
        }
    }
}

impl vstd::std_specs::convert::FromSpecImpl<WeaponTypes> for ProjectileData {
    open spec fn obeys_from_spec() -> bool {
        true
    }

    open spec fn from_spec(value: WeaponTypes) -> ProjectileData {
        ProjectileData {
            count: if value == WeaponTypes::Ice { 4 } else { 1 },
            damage: match value {
                WeaponTypes::Laser => 3,
                WeaponTypes::Fire => 20,
                WeaponTypes::Ice => 1,
                WeaponTypes::Rifle => 30,
            },
            weapon_type: value,
            area_of_effect: value == WeaponTypes::Fire,
            source_entity: None,
        }
    }
}

impl From<TowerTypes> for ProjectileData {
    /// The first volley of the weapon of a kind of tower.
    fn from(value: TowerTypes) -> (data: ProjectileData) {
        let weapon = WeaponTypes::from(value);
        ProjectileData::from(weapon)
    }
}

impl vstd::std_specs::convert::FromSpecImpl<TowerTypes> for ProjectileData {
    open spec fn obeys_from_spec() -> bool {
        true
    }

    open spec fn from_spec(value: TowerTypes) -> ProjectileData {
        <ProjectileData as vstd::std_specs::convert::FromSpec<WeaponTypes>>::from_spec(
            <WeaponTypes as vstd::std_specs::convert::FromSpec<TowerTypes>>::from_spec(value),
        )
    }
}

impl ProjectileData {
    /// The effect that a projectile of the towers `tower` puts on an enemy:
    /// that of the weapon, as strong as the towers make it, and lasting
    /// their duration in seconds, counted here in milliseconds.
    pub fn status_effect(&self, tower: &TowerData) -> (effect: StatusEffect)
        ensures
            effect.effect_type == if self.weapon_type == WeaponTypes::Ice {
                EffectType::Slow
            } else {
                EffectType::NoEffect
            },
            effect.remaining == tower.status_effect.duration * 1000,
            effect.potency == tower.status_effect.potency,
    {
        let (potency, duration) = (tower.get_status().potency, tower.get_status().duration);
        StatusEffect {
            effect_type: EffectType::from(self.weapon_type),
            remaining: duration as u64 * 1000,
            potency,
        }
    }
}

impl TowerInfo {
    /// A volley of the kind `tower` does as much more damage as the kind
    /// has levels. The damage has to fit.
    pub fn mega_fire(&self, tower: &TowerTypes, projectile_data: &mut ProjectileData)
        requires
            old(projectile_data).damage + (if self@.dom().contains(*tower) {
                self@[*tower].level
            } else {
                1
            }) <= usize::MAX,
        ensures
            *final(projectile_data) == (ProjectileData {
                damage: (old(projectile_data).damage + (if self@.dom().contains(*tower) {
                    self@[*tower].level
                } else {
                    1
                })) as usize,
                ..*old(projectile_data)
            }),
    {
        let level = self.get_level(tower);
        projectile_data.damage += level as usize;
    }
}

/// A weapon: its volley and its level.
#[derive(Debug, Clone, Copy, PartialEq, Eq, Structural)]
pub struct WeaponComponent {
    pub projectile_data: ProjectileData,
    pub level: u32,
}

impl From<WeaponTypes> for WeaponComponent {
    /// A weapon of the kind at its first level.
    fn from(value: WeaponTypes) -> (weapon: WeaponComponent) {
        WeaponComponent { projectile_data: ProjectileData::from(value), level: 1 }
    }
}

impl vstd::std_specs::convert::FromSpecImpl<WeaponTypes> for WeaponComponent {
    open spec fn obeys_from_spec() -> bool {
        true
    }

    open spec fn from_spec(value: WeaponTypes) -> WeaponComponent {
        WeaponComponent {
            projectile_data: <ProjectileData as vstd::std_specs::convert::FromSpec<
                WeaponTypes,
            >>::from_spec(value),
            level: 1,
        }
    }
}

impl From<TowerTypes> for WeaponComponent {
    /// The weapon of a kind of tower at its first level.
    fn from(value: TowerTypes) -> (weapon: WeaponComponent) {
        let weapon_type = WeaponTypes::from(value);
        WeaponComponent::from(weapon_type)
    }
}

impl vstd::std_specs::convert::FromSpecImpl<TowerTypes> for WeaponComponent {
    open spec fn obeys_from_spec() -> bool {
        true
    }

    open spec fn from_spec(value: TowerTypes) -> WeaponComponent {
        <WeaponComponent as vstd::std_specs::convert::FromSpec<WeaponTypes>>::from_spec(
            <WeaponTypes as vstd::std_specs::convert::FromSpec<TowerTypes>>::from_spec(value),
        )
    }
}

/// What a level gained changes besides the weapon's volley.
#[derive(Debug, Clone, Copy, PartialEq, Eq, Structural)]
pub struct LevelUp {
    /// The projectiles fly faster.
    pub faster: bool,
    /// The weapon reloads in less time.
    pub quicker: bool,
}

impl WeaponComponent {
    /// The price of a level for the kind of weapon.
    pub open spec fn base_cost(kind: WeaponTypes) -> int {
        match kind {
            WeaponTypes::Laser => 10,
            WeaponTypes::Fire => 15,
            WeaponTypes::Ice => 20,
            WeaponTypes::Rifle => 25,
        }
    }

    /// The price of the next level: that of the kind, times the level. It
    /// has to fit the machine's numbers.
    pub fn cost(&self) -> (c: u32)
        requires
            Self::base_cost(self.projectile_data.weapon_type) * self.level <= u32::MAX,
        ensures
            c == Self::base_cost(self.projectile_data.weapon_type) * self.level,
    {
        let base: u32 = match self.projectile_data.weapon_type {
            WeaponTypes::Laser => 10,
            WeaponTypes::Fire => 15,
            WeaponTypes::Ice => 20,
            WeaponTypes::Rifle => 25,
        };
        base * self.level
    }

    pub fn weapon_type(&self) -> (kind: WeaponTypes)
        ensures
            kind == self.projectile_data.weapon_type,
    {
        self.projectile_data.weapon_type
    }

    /// The weapon gains a level, and its projectiles from now on do the
    /// damage `damage`. At every twenty-fifth level a volley has one
    /// projectile more, and above the hundred-thousandth the projectiles
    /// strike every enemy on the cell. What is returned says whether the
    /// projectiles fly faster from now on, as they do at every fifth level,
    /// and whether the weapon reloads in less time, as it does at every
    /// tenth. Level and count have to fit.
    pub fn level_up(&mut self, damage: usize) -> (change: LevelUp)
        requires
            old(self).level < u32::MAX,
            old(self).level % 25 == 0 ==> old(self).projectile_data.count < usize::MAX,
        ensures
            change == (LevelUp {
                faster: old(self).level % 5 == 0,
                quicker: old(self).level % 10 == 0,
            }),
            *final(self) == (WeaponComponent {
                projectile_data: ProjectileData {
                    damage,
                    count: if old(self).level % 25 == 0 {
                        (old(self).projectile_data.count + 1) as usize
                    } else {
                        old(self).projectile_data.count
                    },
                    area_of_effect: old(self).projectile_data.area_of_effect || old(self).level
                        > 100000,
                    ..old(self).projectile_data
                },
                level: (old(self).level + 1) as u32,
            }),
    {
        self.projectile_data.damage = damage;
        let faster = self.level % 5 == 0;
        if self.level % 25 == 0 {
            self.projectile_data.count = self.projectile_data.count + 1;
        }
        let quicker = self.level % 10 == 0;
        if self.level > 100000 {
            self.projectile_data.area_of_effect = true;
        }
        self.level += 1;
        LevelUp { faster, quicker }
    }
}

} // verus!
