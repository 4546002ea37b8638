//! The weapons that the player carries and pays for with points.

use crate::player::PlayerComponent;
use vstd::prelude::*;

verus! {

/// The kinds of weapon of the player.
#[derive(Debug, Copy, Clone, Hash, PartialEq, Eq, Structural)]
pub enum WeaponTypes {
    Laser,
    Torpedo,
}

/// What a volley of a weapon is: how many projectiles, and the damage of
/// each.
#[derive(Debug, Clone, Copy, PartialEq, Eq, Hash, Structural)]
pub struct ProjectileData {
    pub count: usize,
    pub damage: usize,
    pub weapon_type: WeaponTypes,
}

/// A weapon: its volley, and the points that another like it costs.
#[derive(Debug, Clone, Copy, PartialEq, Eq, Structural)]
pub struct WeaponComponent {
    pub projectile_data: ProjectileData,
    pub cost: usize,
}

impl WeaponComponent {
    /// A new weapon of the kind: a laser fires one projectile of damage one,
    /// a torpedo two of damage two; the next one is free.
    pub open spec fn fresh(kind: WeaponTypes) -> WeaponComponent {
        match kind {
            WeaponTypes::Laser => WeaponComponent {
                projectile_data: ProjectileData { count: 1, damage: 1, weapon_type: kind },
                cost: 0,
            },
            WeaponTypes::Torpedo => WeaponComponent {
                projectile_data: ProjectileData { count: 2, damage: 2, weapon_type: kind },
                cost: 0,
            },
        }
    }

    /// The weapon with one projectile more, one more damage, and a price
    /// higher by one.
    pub open spec fn upgraded(self) -> WeaponComponent {
        WeaponComponent {
            projectile_data: ProjectileData {
                count: (self.projectile_data.count + 1) as usize,
                damage: (self.projectile_data.damage + 1) as usize,
                weapon_type: self.projectile_data.weapon_type,
            },
            cost: (self.cost + 1) as usize,
        }
    }

    /// Whether the weapon can be upgraded within the machine's numbers.
    pub open spec fn upgradable(self) -> bool {
        &&& self.projectile_data.count < usize::MAX
        &&& self.projectile_data.damage < usize::MAX
        &&& self.cost < usize::MAX
    }
}

impl From<WeaponTypes> for WeaponComponent {
    fn from(value: WeaponTypes) -> (weapon: WeaponComponent) {
        match value {
            WeaponTypes::Laser => WeaponComponent {
                projectile_data: ProjectileData {
                    count: 1,
                    damage: 1,
                    weapon_type: WeaponTypes::Laser,
                },
                cost: 0,
            },
            WeaponTypes::Torpedo => WeaponComponent {
                projectile_data: ProjectileData {
                    count: 2,
                    damage: 2,
                    weapon_type: WeaponTypes::Torpedo,
                },
                cost: 0,
            },
        }
    }
}

impl vstd::std_specs::convert::FromSpecImpl<WeaponTypes> for WeaponComponent {
    open spec fn obeys_from_spec() -> bool {
        true
    }

    open spec fn from_spec(value: WeaponTypes) -> WeaponComponent {
        WeaponComponent::fresh(value)
    }
}

/// The place of the first weapon of the kind `kind` among the first `n` of
/// `weapons`, or -1.
pub open spec fn first_of(weapons: Seq<WeaponComponent>, kind: WeaponTypes, n: int) -> int
    decreases n,
{
    if n <= 0 {
        -1
    } else if first_of(weapons, kind, n - 1) >= 0 {
        first_of(weapons, kind, n - 1)
    } else if weapons[n - 1].projectile_data.weapon_type == kind {
        n - 1
    } else {
        -1
    }
}

/// The sum of the prices of the weapons of the kind `kind` among the first
/// `n` of `weapons`.
pub open spec fn price_of(weapons: Seq<WeaponComponent>, kind: WeaponTypes, n: int) -> int
    decreases n,
{
    if n <= 0 {
        0
    } else {
        price_of(weapons, kind, n - 1) + if weapons[n - 1].projectile_data.weapon_type == kind {
            weapons[n - 1].cost as int
        } else {
            0
        }
    }
}

proof fn lemma_first_rest(weapons: Seq<WeaponComponent>, kind: WeaponTypes, i: int, n: int)
    requires
        0 <= i < n <= weapons.len(),
        first_of(weapons, kind, i) < 0,
        weapons[i].projectile_data.weapon_type == kind,
    ensures
        first_of(weapons, kind, n) == i,
    decreases n - i,
{
    if n > i + 1 {
        lemma_first_rest(weapons, kind, i, n - 1);
    }
}

proof fn lemma_price_grows(weapons: Seq<WeaponComponent>, kind: WeaponTypes, a: int, b: int)
    requires
        0 <= a <= b <= weapons.len(),
    ensures
        0 <= price_of(weapons, kind, a) <= price_of(weapons, kind, b),
    decreases b,
{
    if a < b {
        lemma_price_grows(weapons, kind, a, b - 1);
    } else if a > 0 {
        lemma_price_grows(weapons, kind, a - 1, a - 1);
    }
}

/// The weapons that the player carries.
#[derive(Debug)]
pub struct WeaponComponents {
    pub weapons: Vec<WeaponComponent>,
}

impl WeaponComponents {
    /// The weapons after one of the kind `kind` has been added: the first
    /// weapon of that kind is upgraded, and where there is none a new one
    /// comes last.
    pub open spec fn with(weapons: Seq<WeaponComponent>, kind: WeaponTypes) -> Seq<WeaponComponent> {
        let at = first_of(weapons, kind, weapons.len() as int);
        if at >= 0 {
            weapons.update(at, weapons[at].upgraded())
        } else {
            weapons.push(WeaponComponent::fresh(kind))
        }
    }

    /// The place of the first weapon of the kind, if there is one.
    fn find(&self, kind: WeaponTypes) -> (at: Option<usize>)
        ensures
            at matches Some(i) ==> i == first_of(self.weapons@, kind, self.weapons@.len() as int)
                && i < self.weapons@.len(),
            at is None ==> first_of(self.weapons@, kind, self.weapons@.len() as int) < 0,
    {
        let mut i: usize = 0;
        while i < self.weapons.len()
            invariant
                i <= self.weapons@.len(),
                first_of(self.weapons@, kind, i as int) < 0,
            decreases self.weapons@.len() - i,
        {
            if self.weapons[i].projectile_data.weapon_type == kind {
                proof {
                    lemma_first_rest(self.weapons@, kind, i as int, self.weapons@.len() as int);
                }
                return Some(i);
            }
            i += 1;
        }
        None
    }

    /// Adds a weapon of the kind `weapon_type`: the first one of that kind
    /// is upgraded, and where there is none a new one comes last. What is
    /// upgraded has to stay within the machine's numbers.
    pub fn add_weapon(&mut self, weapon_type: WeaponTypes)
        requires
            first_of(old(self).weapons@, weapon_type, old(self).weapons@.len() as int) >= 0
                ==> old(self).weapons@[first_of(
                old(self).weapons@,
                weapon_type,
                old(self).weapons@.len() as int,
            )].upgradable(),
        ensures
            final(self).weapons@ == Self::with(old(self).weapons@, weapon_type),
    {
        if self.find(weapon_type).is_some() {
            self.upgrade_weapon(weapon_type);
        } else {
            self.weapons.push(WeaponComponent::from(weapon_type));
        }
    }

    /// Upgrades the first weapon of the kind `weapon_type`, if there is
    /// one: it then fires one projectile more, of one more damage, and costs
    /// one more. That has to stay within the machine's numbers.
    pub fn upgrade_weapon(&mut self, weapon_type: WeaponTypes)
        requires
            first_of(old(self).weapons@, weapon_type, old(self).weapons@.len() as int) >= 0
                ==> old(self).weapons@[first_of(
                old(self).weapons@,
                weapon_type,
                old(self).weapons@.len() as int,
            )].upgradable(),
        ensures
            final(self).weapons@ == ({
                let at = first_of(old(self).weapons@, weapon_type, old(self).weapons@.len() as int);
                if at >= 0 {
                    old(self).weapons@.update(at, old(self).weapons@[at].upgraded())
                } else {
                    old(self).weapons@
                }
            }),
    {
        match self.find(weapon_type) {
            Some(i) => {
                let mut weapon = self.weapons[i];
                weapon.projectile_data.damage += 1;
                weapon.projectile_data.count += 1;
                weapon.cost += 1;
                self.weapons[i] = weapon;
            },
            None => {},
        }
    }

    /// The sum of the prices of the weapons of the kind. It has to fit.
    fn price(&self, kind: WeaponTypes) -> (points: usize)
        requires
            price_of(self.weapons@, kind, self.weapons@.len() as int) <= usize::MAX,
        ensures
            points == price_of(self.weapons@, kind, self.weapons@.len() as int),
    {
        let mut points: usize = 0;
        let mut i: usize = 0;
        while i < self.weapons.len()
            invariant
                i <= self.weapons@.len(),
                points == price_of(self.weapons@, kind, i as int),
                price_of(self.weapons@, kind, self.weapons@.len() as int) <= usize::MAX,
            decreases self.weapons@.len() - i,
        {
            proof {
                lemma_price_grows(self.weapons@, kind, i + 1, self.weapons@.len() as int);
            }
            if self.weapons[i].projectile_data.weapon_type == kind {
                points += self.weapons[i].cost;
            }
            i += 1;
        }
        points
    }
}

impl From<Vec<WeaponTypes>> for WeaponComponents {
    /// A new weapon of each kind, in the order of the kinds.
    fn from(value: Vec<WeaponTypes>) -> (components: WeaponComponents)
        ensures
            components.weapons@.len() == value@.len(),
            forall|i: int|
                0 <= i < value@.len() ==> (#[trigger] components.weapons@[i])
                    == WeaponComponent::fresh(value@[i]),
    {
        let mut weapons: Vec<WeaponComponent> = Vec::new();
        let mut i: usize = 0;
        while i < value.len()
            invariant
                i <= value@.len(),
                weapons@.len() == i,
                forall|j: int|
                    0 <= j < i ==> (#[trigger] weapons@[j]) == WeaponComponent::fresh(value@[j]),
            decreases value@.len() - i,
        {
            weapons.push(WeaponComponent::from(value[i]));
            i += 1;
        }
        WeaponComponents { weapons }
    }
}

impl vstd::std_specs::convert::FromSpecImpl<Vec<WeaponTypes>> for WeaponComponents {
    /// What `from` gives is said by its own contract, weapon by weapon.
    open spec fn obeys_from_spec() -> bool {
        false
    }

    open spec fn from_spec(value: Vec<WeaponTypes>) -> WeaponComponents {
        arbitrary()
    }
}

/// The player asks for a weapon of the kind `weapon`. It costs the sum of
/// the prices of the weapons of that kind carried, which has to fit. A
/// player with the points pays them and gets the weapon; one without keeps
/// points and weapons as they are. Returns whether the weapon was got.
pub fn weapon_upgrade_system(
    player: &mut PlayerComponent,
    weapons: &mut WeaponComponents,
    weapon: WeaponTypes,
) -> (got: bool)
    requires
        price_of(old(weapons).weapons@, weapon, old(weapons).weapons@.len() as int) <= usize::MAX,
        first_of(old(weapons).weapons@, weapon, old(weapons).weapons@.len() as int) >= 0 ==> old(
            weapons,
        ).weapons@[first_of(
            old(weapons).weapons@,
            weapon,
            old(weapons).weapons@.len() as int,
        )].upgradable(),
    ensures
        got == (old(player).points >= price_of(
            old(weapons).weapons@,
            weapon,
            old(weapons).weapons@.len() as int,
        )),
        final(player).health == old(player).health,
        final(player).points == if got {
            old(player).points - price_of(
                old(weapons).weapons@,
                weapon,
                old(weapons).weapons@.len() as int,
            )
        } else {
            old(player).points as int
        },
        final(weapons).weapons@ == if got {
            WeaponComponents::with(old(weapons).weapons@, weapon)
        } else {
            old(weapons).weapons@
        },
{
    let npoints = weapons.price(weapon);
    if player.points < npoints {
        return false;
    }
    weapons.add_weapon(weapon);
    player.points -= npoints;
    true
}

} // verus!
