//! Towers: what they cost, what they have learnt, and where they stand.

use crate::arena::grid::{Cell, Grid};
use crate::arena::occupancy::BuildRejected;
use crate::player::{Player, PlayerUpdateEvent};
use vstd::prelude::*;

verus! {

/// Why a tower goes up a level.
#[derive(Debug, Copy, Clone, PartialEq, Eq, Structural)]
pub enum TowerLevelUpReason {
    Kill,
}

/// The notice that a tower has earned experience.
#[derive(Debug, Clone, Copy, PartialEq, Eq, Structural)]
pub struct TowerLevelUp {
    pub entity: u64,
    pub reason: TowerLevelUpReason,
    pub enemy_experience: usize,
}

/// The kinds of tower.
#[derive(Debug, Clone, PartialEq, Eq, Hash, Copy, Structural)]
pub enum TowerTypes {
    Basic,
    Fire,
    Ice,
    Sniper,
}

impl TowerTypes {
    /// The price of a tower of this kind when `scale` of them stand.
    pub open spec fn price(self, scale: int) -> int {
        match self {
            TowerTypes::Basic => 1 + scale,
            TowerTypes::Fire => 2 + scale * 5,
            TowerTypes::Ice => 3 * scale,
            TowerTypes::Sniper => 15 * scale,
        }
    }

    /// The price of a tower of this kind when `scale` of them stand. It has
    /// to fit the machine's numbers.
    pub fn cost(&self, scale: u32) -> (c: u32)
        requires
            self.price(scale as int) <= u32::MAX,
        ensures
            c == self.price(scale as int),
    {
        match self {
            TowerTypes::Basic => 1 + scale,
            TowerTypes::Fire => 2 + scale * 5,
            TowerTypes::Ice => 3 * scale,
            TowerTypes::Sniper => 15 * scale,
        }
    }

    /// Every kind of tower, in the order of their declaration.
    pub fn all() -> (kinds: [TowerTypes; 4])
        ensures
            kinds@ == seq![TowerTypes::Basic, TowerTypes::Fire, TowerTypes::Ice, TowerTypes::Sniper],
    {
        [TowerTypes::Basic, TowerTypes::Fire, TowerTypes::Ice, TowerTypes::Sniper]
    }
}

/// The damage that the towers of a kind have done.
#[derive(Debug, Clone, PartialEq, Eq, Default, Copy, Structural)]
pub struct TowerDamage(pub u128);

/// The digit for a number below ten.
pub open spec fn digit(d: nat) -> char {
    if d == 0 {
        '0'
    } else if d == 1 {
        '1'
    } else if d == 2 {
        '2'
    } else if d == 3 {
        '3'
    } else if d == 4 {
        '4'
    } else if d == 5 {
        '5'
    } else if d == 6 {
        '6'
    } else if d == 7 {
        '7'
    } else if d == 8 {
        '8'
    } else {
        '9'
    }
}

/// The number `n` in decimal digits.
pub open spec fn decimal(n: nat) -> Seq<char>
    decreases n,
{
    if n < 10 {
        seq![digit(n)]
    } else {
        decimal(n / 10).push(digit(n % 10))
    }
}

/// Writes `n` and behind it `unit`, with `format!`.
///
/// Believed of it: an unsigned integer is written in decimal digits, without
/// sign or padding, and a string as itself.
#[verifier::external_body]
fn numeral(n: u128, unit: &str) -> (text: String)
    ensures
        text@ == decimal(n as nat) + unit@,
{
    format!("{}{}", n, unit)
}

impl TowerDamage {
    pub fn damage(&self) -> (d: u128)
        ensures
            d == self.0,
    {
        self.0
    }

    /// Adds `damage`. The sum has to fit.
    pub fn add_damage(&mut self, damage: u128)
        requires
            old(self).0 + damage <= u128::MAX,
        ensures
            final(self).0 == old(self).0 + damage,
    {
        self.0 += damage;
    }

    /// The number to show for the damage, and its unit: whole thousands as
    /// `K` above a thousand, whole millions as `M` above a million, whole
    /// thousands of millions as `G` above that.
    pub open spec fn shown(self) -> (nat, Seq<char>) {
        if self.0 > 1_000_000_000 {
            ((self.0 / 1_000_000_000) as nat, seq!['G'])
        } else if self.0 > 1_000_000 {
            ((self.0 / 1_000_000) as nat, seq!['M'])
        } else if self.0 > 1_000 {
            ((self.0 / 1_000) as nat, seq!['K'])
        } else {
            (self.0 as nat, Seq::empty())
        }
    }

    /// The damage as it is shown: the number in decimal digits, and the
    /// unit behind it.
    pub fn to_text(&self) -> (text: String)
        ensures
            text@ == decimal(self.shown().0) + self.shown().1,
    {
        proof {
            reveal_strlit("G");
            reveal_strlit("M");
            reveal_strlit("K");
            reveal_strlit("");
            assert("G"@ =~= seq!['G']);
            assert("M"@ =~= seq!['M']);
            assert("K"@ =~= seq!['K']);
            assert(""@ =~= Seq::<char>::empty());
        }
        if self.0 > 1_000_000_000 {
            numeral(self.0 / 1_000_000_000, "G")
        } else if self.0 > 1_000_000 {
            numeral(self.0 / 1_000_000, "M")
        } else if self.0 > 1_000 {
            numeral(self.0 / 1_000, "K")
        } else {
            numeral(self.0, "")
        }
    }
}

/// How strong and how lasting the effect of a kind of tower is.
#[derive(Debug, Clone, PartialEq, Eq, Default, Copy, Structural)]
pub struct TowerStatusEffects {
    pub potency: u32,
    pub duration: u32,
}

/// `n` more than `x`, and the largest number where that does not fit.
pub open spec fn raised(x: u32, n: int) -> u32 {
    if x + n > u32::MAX {
        u32::MAX
    } else {
        (x + n) as u32
    }
}

/// The experience and the level that come of the experience `exp` at the
/// level `level`: as long as the experience is above 333 times the level,
/// the level goes up by one and costs as much experience as it was.
pub open spec fn leveled(exp: nat, level: nat) -> (nat, nat)
    decreases exp,
{
    if level >= 1 && exp > level * 333 {
        leveled((exp - level) as nat, level + 1)
    } else {
        (exp, level)
    }
}

/// What the towers of one kind have in common.
#[derive(Debug, Clone, Copy, PartialEq, Eq, Structural)]
pub struct TowerData {
    pub experience: u32,
    pub level: u32,
    pub status_effect: TowerStatusEffects,
    pub current_cost: u32,
    pub tower_count: u32,
    pub tower_type: TowerTypes,
    pub damage_done: TowerDamage,
}

impl TowerData {
    /// Levels count from one.
    pub open spec fn wf(&self) -> bool {
        self.level >= 1
    }

    /// The data of a kind of which no tower stands yet.
    pub open spec fn fresh(tower_type: TowerTypes) -> TowerData {
        TowerData {
            experience: 0,
            level: 1,
            status_effect: TowerStatusEffects { potency: 0, duration: 0 },
            current_cost: 1,
            tower_count: 0,
            tower_type,
            damage_done: TowerDamage(0),
        }
    }

    /// The data of a kind of which no tower stands yet.
    pub fn new(tower_type: &TowerTypes) -> (data: Self)
        ensures
            data == Self::fresh(*tower_type),
    {
        Self {
            experience: 0,
            level: 1,
            status_effect: TowerStatusEffects { potency: 0, duration: 0 },
            current_cost: 1,
            tower_count: 0,
            tower_type: *tower_type,
            damage_done: TowerDamage(0),
        }
    }

    pub fn get_level(&self) -> (level: u32)
        ensures
            level == self.level,
    {
        self.level
    }

    /// The data after `experience` has been earned: the levels that this
    /// pays for are taken, and with each the effect gets stronger and lasts
    /// longer by one.
    pub open spec fn experienced(self, experience: u32) -> TowerData {
        let (exp, level) = leveled((self.experience + experience) as nat, self.level as nat);
        TowerData {
            experience: exp as u32,
            level: level as u32,
            status_effect: TowerStatusEffects {
                potency: raised(self.status_effect.potency, level - self.level),
                duration: raised(self.status_effect.duration, level - self.level),
            },
            ..self
        }
    }

    /// Earns `experience`, which has to fit with what there is.
    pub fn add_experience(&mut self, experience: u32)
        requires
            old(self).wf(),
            old(self).experience + experience <= u32::MAX,
        ensures
            final(self).wf(),
            *final(self) == old(self).experienced(experience),
            final(self).level >= old(self).level,
    {
        self.experience += experience;
        while (self.experience as u64) > (self.level as u64) * 333
            invariant
                self.level >= old(self).level >= 1,
                leveled(self.experience as nat, self.level as nat) == leveled(
                    (old(self).experience + experience) as nat,
                    old(self).level as nat,
                ),
                self.status_effect.potency == raised(
                    old(self).status_effect.potency,
                    self.level - old(self).level,
                ),
                self.status_effect.duration == raised(
                    old(self).status_effect.duration,
                    self.level - old(self).level,
                ),
                self.current_cost == old(self).current_cost,
                self.tower_count == old(self).tower_count,
                self.tower_type == old(self).tower_type,
                self.damage_done == old(self).damage_done,
            decreases self.experience,
        {
            self.experience -= self.level;
            self.level += 1;
            self.mutate_status()
        }
    }

    /// Makes the effect stronger and longer by one, up to the largest
    /// number.
    fn mutate_status(&mut self)
        ensures
            *final(self) == (TowerData {
                status_effect: TowerStatusEffects {
                    potency: raised(old(self).status_effect.potency, 1),
                    duration: raised(old(self).status_effect.duration, 1),
                },
                ..*old(self)
            }),
    {
        self.status_effect.duration = self.status_effect.duration.saturating_add(1);
        self.status_effect.potency = self.status_effect.potency.saturating_add(1);
    }

    pub fn get_status(&self) -> (status: &TowerStatusEffects)
        ensures
            *status == self.status_effect,
    {
        &self.status_effect
    }

    /// Counts one tower more and sets the price of the next. Count and price
    /// have to fit.
    pub fn build_tower(&mut self)
        requires
            old(self).tower_count < u32::MAX,
            old(self).tower_type.price(old(self).tower_count + 1) <= u32::MAX,
        ensures
            *final(self) == (TowerData {
                tower_count: (old(self).tower_count + 1) as u32,
                current_cost: old(self).tower_type.price(old(self).tower_count + 1) as u32,
                ..*old(self)
            }),
    {
        self.tower_count += 1;
        self.current_cost = self.tower_type.cost(self.tower_count);
    }

    /// Counts one tower less and sets the price of the next. There has to be
    /// a tower.
    pub fn remove_tower(&mut self)
        requires
            old(self).tower_count > 0,
            old(self).tower_type.price(old(self).tower_count - 1) <= u32::MAX,
        ensures
            *final(self) == (TowerData {
                tower_count: (old(self).tower_count - 1) as u32,
                current_cost: old(self).tower_type.price(old(self).tower_count - 1) as u32,
                ..*old(self)
            }),
    {
        self.tower_count -= 1;
        self.current_cost = self.tower_type.cost(self.tower_count);
    }

    /// Earns the experience that the next level asks for: 333 times the
    /// level. It has to fit with what there is.
    pub fn upgrade(&mut self)
        requires
            old(self).wf(),
            old(self).experience + old(self).level * 333 <= u32::MAX,
        ensures
            final(self).wf(),
            *final(self) == old(self).experienced((old(self).level * 333) as u32),
    {
        let experience_needed = self.level * 333;
        self.add_experience(experience_needed);
    }

    /// Adds to the damage done. The sum has to fit.
    pub fn add_damage(&mut self, damage: u32)
        requires
            old(self).damage_done.0 + damage <= u128::MAX,
        ensures
            *final(self) == (TowerData {
                damage_done: TowerDamage((old(self).damage_done.0 + damage) as u128),
                ..*old(self)
            }),
    {
        self.damage_done.add_damage(damage as u128);
    }

    pub fn get_damage(&self) -> (damage: TowerDamage)
        ensures
            damage == self.damage_done,
    {
        self.damage_done
    }
}

/// What is known of each kind of tower.
#[derive(Debug)]
pub struct TowerInfo {
    tower_data: Vec<TowerData>,
}

/// Where in `s` the data of the kind `k` stand: the first place among the
/// first `n`, or -1.
spec fn place_in(s: Seq<TowerData>, k: TowerTypes, n: int) -> int
    decreases n,
{
    if n <= 0 {
        -1
    } else if place_in(s, k, n - 1) >= 0 {
        place_in(s, k, n - 1)
    } else if s[n - 1].tower_type == k {
        n - 1
    } else {
        -1
    }
}

proof fn lemma_place_in(s: Seq<TowerData>, k: TowerTypes, n: int)
    requires
        0 <= n <= s.len(),
    ensures
        -1 <= place_in(s, k, n) < n,
        place_in(s, k, n) >= 0 ==> s[place_in(s, k, n)].tower_type == k,
        place_in(s, k, n) < 0 ==> forall|i: int| 0 <= i < n ==> (#[trigger] s[i]).tower_type != k,
        forall|i: int| 0 <= i < n && (#[trigger] s[i]).tower_type == k ==> place_in(s, k, n) <= i,
    decreases n,
{
    if n > 0 {
        lemma_place_in(s, k, n - 1);
    }
}

proof fn lemma_place_rest(s: Seq<TowerData>, k: TowerTypes, i: int, n: int)
    requires
        0 <= i < n <= s.len(),
        place_in(s, k, i) < 0,
        s[i].tower_type == k,
    ensures
        place_in(s, k, n) == i,
    decreases n - i,
{
    if n > i + 1 {
        lemma_place_rest(s, k, i, n - 1);
    }
}

/// Data put in the place of data of the same kind change what is known of
/// that kind, and of no other.
proof fn lemma_place_update(s: Seq<TowerData>, i: int, data: TowerData, k: TowerTypes)
    requires
        0 <= i < s.len(),
        data.tower_type == s[i].tower_type,
    ensures
        place_in(s.update(i, data), k, s.len() as int) == place_in(s, k, s.len() as int),
{
    let t = s.update(i, data);
    lemma_place_in(s, k, s.len() as int);
    lemma_place_in(t, k, s.len() as int);
    let a = place_in(s, k, s.len() as int);
    let b = place_in(t, k, s.len() as int);
    if a >= 0 {
        assert(t[a].tower_type == k);
    }
    if b >= 0 {
        assert(s[b].tower_type == k);
    }
}

impl View for TowerInfo {
    type V = Map<TowerTypes, TowerData>;

    closed spec fn view(&self) -> Map<TowerTypes, TowerData> {
        Map::new(
            |k: TowerTypes| self.place(k) >= 0,
            |k: TowerTypes| self.tower_data@[self.place(k)],
        )
    }
}

impl Default for TowerInfo {
    /// Every kind of tower, each with the data of a kind of which no tower
    /// stands yet.
    fn default() -> (info: TowerInfo)
        ensures
            info.wf(),
            forall|k: TowerTypes| #[trigger] info@.dom().contains(k),
            forall|k: TowerTypes| #[trigger] info@[k] == TowerData::fresh(k),
    {
        let kinds = TowerTypes::all();
        let mut tower_data: Vec<TowerData> = Vec::new();
        let mut i: usize = 0;
        while i < 4
            invariant
                i <= 4,
                kinds@ == seq![
                    TowerTypes::Basic,
                    TowerTypes::Fire,
                    TowerTypes::Ice,
                    TowerTypes::Sniper,
                ],
                tower_data@.len() == i,
                forall|j: int|
                    0 <= j < i ==> (#[trigger] tower_data@[j]) == TowerData::fresh(kinds@[j]),
            decreases 4 - i,
        {
            tower_data.push(TowerData::new(&kinds[i]));
            i += 1;
        }
        let info = TowerInfo { tower_data };
        proof {
            assert forall|k: TowerTypes| #[trigger]
                info@.dom().contains(k) && info@[k] == TowerData::fresh(k) by {
                let at: int = match k {
                    TowerTypes::Basic => 0,
                    TowerTypes::Fire => 1,
                    TowerTypes::Ice => 2,
                    TowerTypes::Sniper => 3,
                };
                assert(info.tower_data@[at].tower_type == k);
                lemma_place_in(info.tower_data@, k, 4);
            }
            assert forall|k: TowerTypes| #[trigger] info@[k] == TowerData::fresh(k) by {
                assert(info@.dom().contains(k));
            }
        }
        info
    }
}

impl TowerInfo {
    closed spec fn place(&self, k: TowerTypes) -> int {
        place_in(self.tower_data@, k, self.tower_data@.len() as int)
    }

    /// No kind is held twice, and the levels count from one.
    pub closed spec fn wf(&self) -> bool {
        &&& forall|i: int, j: int|
            0 <= i < j < self.tower_data@.len() ==> (#[trigger] self.tower_data@[i]).tower_type != (
            #[trigger] self.tower_data@[j]).tower_type
        &&& forall|i: int|
            0 <= i < self.tower_data@.len() ==> (#[trigger] self.tower_data@[i]).wf()
    }

    /// The data of each kind are held under that kind, and are well-formed.
    pub proof fn law_held_by_kind(&self)
        requires
            self.wf(),
        ensures
            forall|k: TowerTypes| #[trigger]
                self@.dom().contains(k) ==> self@[k].tower_type == k && self@[k].wf(),
    {
        assert forall|k: TowerTypes| #[trigger] self@.dom().contains(k) implies self@[k].tower_type
            == k && self@[k].wf() by {
            lemma_place_in(self.tower_data@, k, self.tower_data@.len() as int);
        }
    }

    /// The place of the data of the kind `k`, if they are held.
    fn find(&self, k: &TowerTypes) -> (at: Option<usize>)
        ensures
            at matches Some(i) ==> i == self.place(*k) && i < self.tower_data@.len()
                && self.tower_data@[i as int].tower_type == *k,
            at is None ==> self.place(*k) < 0,
    {
        let mut i: usize = 0;
        while i < self.tower_data.len()
            invariant
                i <= self.tower_data@.len(),
                place_in(self.tower_data@, *k, i as int) < 0,
            decreases self.tower_data@.len() - i,
        {
            if self.tower_data[i].tower_type == *k {
                proof {
                    lemma_place_rest(
                        self.tower_data@,
                        *k,
                        i as int,
                        self.tower_data@.len() as int,
                    );
                }
                return Some(i);
            }
            i += 1;
        }
        None
    }

    /// Puts `data` in the place `i`, where data of the same kind stand.
    fn put(&mut self, i: usize, data: TowerData)
        requires
            old(self).wf(),
            data.wf(),
            i < old(self).tower_data@.len(),
            i == old(self).place(data.tower_type),
        ensures
            final(self).wf(),
            final(self)@ == old(self)@.insert(data.tower_type, data),
    {
        proof {
            lemma_place_in(self.tower_data@, data.tower_type, self.tower_data@.len() as int);
        }
        self.tower_data[i] = data;
        proof {
            let before = old(self).tower_data@;
            let now = final(self)@;
            let goal = old(self)@.insert(data.tower_type, data);
            assert(final(self).tower_data@ == before.update(i as int, data));
            assert forall|k: TowerTypes| #[trigger]
                now.dom().contains(k) == goal.dom().contains(k) && (now.dom().contains(k)
                    ==> now[k] == goal[k]) by {
                lemma_place_update(before, i as int, data, k);
                lemma_place_in(before, k, before.len() as int);
            }
            assert(now =~= goal);
        }
    }

    /// Whether anything is known of the kind `tower`.
    pub fn knows(&self, tower: &TowerTypes) -> (known: bool)
        ensures
            known == self@.dom().contains(*tower),
    {
        self.find(tower).is_some()
    }

    /// The level after the present one of the kind `tower`.
    pub fn next_level(&self, tower: &TowerTypes) -> (level: u32)
        requires
            self@.dom().contains(*tower) ==> self@[*tower].level < u32::MAX,
        ensures
            level == if self@.dom().contains(*tower) { self@[*tower].level + 1 } else { 2 },
    {
        self.get_level(tower) + 1
    }

    /// The level of the kind `tower`, and one where nothing is known of it.
    pub fn get_level(&self, tower: &TowerTypes) -> (level: u32)
        ensures
            level == if self@.dom().contains(*tower) { self@[*tower].level } else { 1 },
    {
        match self.find(tower) {
            Some(i) => self.tower_data[i].get_level(),
            None => 1,
        }
    }

    /// The kind `tower` earns `experience`, which has to fit with what
    /// there is. Returns the levels gained by it.
    pub fn add_experience(&mut self, tower: &TowerTypes, experience: u32) -> (gained: u32)
        requires
            old(self).wf(),
            old(self)@.dom().contains(*tower) ==> old(self)@[*tower].experience + experience
                <= u32::MAX,
        ensures
            final(self).wf(),
            final(self)@ == if old(self)@.dom().contains(*tower) {
                old(self)@.insert(*tower, old(self)@[*tower].experienced(experience))
            } else {
                old(self)@
            },
            gained == if old(self)@.dom().contains(*tower) {
                old(self)@[*tower].experienced(experience).level - old(self)@[*tower].level
            } else {
                0
            },
    {
        match self.find(tower) {
            Some(i) => {
                let mut data = self.tower_data[i];
                let previous_level = data.get_level();
                data.add_experience(experience);
                self.put(i, data);
                data.get_level().saturating_sub(previous_level)
            },
            None => 0,
        }
    }

    /// The kind `tower` earns the experience that its next level asks for,
    /// which has to fit with what there is.
    pub fn upgrade(&mut self, tower: &TowerTypes)
        requires
            old(self).wf(),
            old(self)@.dom().contains(*tower) ==> old(self)@[*tower].experience + old(
                self,
            )@[*tower].level * 333 <= u32::MAX,
        ensures
            final(self).wf(),
            final(self)@ == if old(self)@.dom().contains(*tower) {
                old(self)@.insert(
                    *tower,
                    old(self)@[*tower].experienced((old(self)@[*tower].level * 333) as u32),
                )
            } else {
                old(self)@
            },
    {
        match self.find(tower) {
            Some(i) => {
                let mut data = self.tower_data[i];
                data.upgrade();
                self.put(i, data);
            },
            None => {},
        }
    }

    /// What is known of the kind `tower`, which has to be something.
    pub fn get_data(&self, tower: &TowerTypes) -> (data: TowerData)
        requires
            self@.dom().contains(*tower),
        ensures
            data == self@[*tower],
    {
        match self.find(tower) {
            Some(i) => self.tower_data[i],
            None => {
                proof {
                    assert(false);
                }
                TowerData::new(tower)
            },
        }
    }

    /// Counts one tower more of the kind `tower`. Count and price have to
    /// fit.
    pub fn build_tower(&mut self, tower: &TowerTypes)
        requires
            old(self).wf(),
            old(self)@.dom().contains(*tower) ==> old(self)@[*tower].tower_count < u32::MAX
                && tower.price(old(self)@[*tower].tower_count + 1) <= u32::MAX,
        ensures
            final(self).wf(),
            final(self)@ == if old(self)@.dom().contains(*tower) {
                old(self)@.insert(
                    *tower,
                    TowerData {
                        tower_count: (old(self)@[*tower].tower_count + 1) as u32,
                        current_cost: tower.price(old(self)@[*tower].tower_count + 1) as u32,
                        ..old(self)@[*tower]
                    },
                )
            } else {
                old(self)@
            },
    {
        match self.find(tower) {
            Some(i) => {
                let mut data = self.tower_data[i];
                data.build_tower();
                self.put(i, data);
            },
            None => {},
        }
    }

    /// Counts one tower less of the kind `tower`, of which there has to be
    /// one.
    pub fn remove_tower(&mut self, tower: &TowerTypes)
        requires
            old(self).wf(),
            old(self)@.dom().contains(*tower) ==> old(self)@[*tower].tower_count > 0 && tower.price(
                old(self)@[*tower].tower_count - 1,
            ) <= u32::MAX,
        ensures
            final(self).wf(),
            final(self)@ == if old(self)@.dom().contains(*tower) {
                old(self)@.insert(
                    *tower,
                    TowerData {
                        tower_count: (old(self)@[*tower].tower_count - 1) as u32,
                        current_cost: tower.price(old(self)@[*tower].tower_count - 1) as u32,
                        ..old(self)@[*tower]
                    },
                )
            } else {
                old(self)@
            },
    {
        match self.find(tower) {
            Some(i) => {
                let mut data = self.tower_data[i];
                data.remove_tower();
                self.put(i, data);
            },
            None => {},
        }
    }

    /// The price of the next tower of the kind `tower`, of which something
    /// has to be known.
    pub fn get_cost(&self, tower: &TowerTypes) -> (cost: u32)
        requires
            self@.dom().contains(*tower),
        ensures
            cost == self@[*tower].current_cost,
    {
        self.get_data(tower).current_cost
    }

    /// The price of the next tower of the kind `tower` if the player has the
    /// bricks for it.
    pub fn enough_bricks(&self, tower: &TowerTypes, player: &Player) -> (price: Option<u32>)
        requires
            self@.dom().contains(*tower),
        ensures
            price == if player.bricks < self@[*tower].current_cost {
                None
            } else {
                Some(self@[*tower].current_cost)
            },
    {
        if player.bricks < self.get_cost(tower) {
            None
        } else {
            Some(self.get_cost(tower))
        }
    }

    /// Adds to the damage done by the kind `tower`. The sum has to fit.
    pub fn add_damage(&mut self, tower: &TowerTypes, damage: u32)
        requires
            old(self).wf(),
            old(self)@.dom().contains(*tower) ==> old(self)@[*tower].damage_done.0 + damage
                <= u128::MAX,
        ensures
            final(self).wf(),
            final(self)@ == if old(self)@.dom().contains(*tower) {
                old(self)@.insert(
                    *tower,
                    TowerData {
                        damage_done: TowerDamage(
                            (old(self)@[*tower].damage_done.0 + damage) as u128,
                        ),
                        ..old(self)@[*tower]
                    },
                )
            } else {
                old(self)@
            },
    {
        match self.find(tower) {
            Some(i) => {
                let mut data = self.tower_data[i];
                data.add_damage(damage);
                self.put(i, data);
            },
            None => {},
        }
    }

    /// The damage done by the kind `tower`, and none where nothing is known
    /// of it.
    pub fn get_damage(&self, tower: &TowerTypes) -> (damage: TowerDamage)
        ensures
            damage == if self@.dom().contains(*tower) {
                self@[*tower].damage_done
            } else {
                TowerDamage(0)
            },
    {
        match self.find(tower) {
            Some(i) => self.tower_data[i].get_damage(),
            None => TowerDamage(0),
        }
    }
}

/// A tower's kind.
#[derive(Debug, Clone, Copy)]
pub struct TowerComponents {
    pub tower: TowerTypes,
}

/// The cell that a tower stands on.
#[derive(Debug, Eq, PartialEq, Structural)]
pub struct TowerPosition(pub Cell);

/// Why a tower is not built.
#[derive(Debug, Clone, Copy, PartialEq, Eq, Structural)]
pub enum TowerRefused {
    /// The player has too few bricks.
    NotEnoughBricks,
    /// The grid turned the cell down.
    Rejected(BuildRejected),
}

/// The first half of building a tower of the kind `tower` on `pos`: the
/// price is asked of the player's bricks, then the cell of the grid. Where
/// both agree the cell is blocked, as yet for nobody, and the price is
/// returned; else nothing has changed.
pub fn try_build_tower(
    grid: &mut Grid,
    tower_info: &TowerInfo,
    player: &Player,
    tower: &TowerTypes,
    pos: &Cell,
) -> (price: Result<u32, TowerRefused>)
    requires
        old(grid).wf(),
        tower_info@.dom().contains(*tower),
    ensures
        final(grid).wf(),
        price == (if tower_info@[*tower].current_cost > player.bricks {
            Err::<u32, TowerRefused>(TowerRefused::NotEnoughBricks)
        } else {
            match old(grid)@.build_verdict(*pos) {
                Some(why) => Err(TowerRefused::Rejected(why)),
                None => Ok(tower_info@[*tower].current_cost),
            }
        }),
        final(grid)@ == if price is Ok { old(grid)@.occupy(*pos, None) } else { old(grid)@ },
        old(grid)@.routable() ==> final(grid)@.routable(),
{
    let bricks = tower_info.get_cost(tower);
    if bricks > player.bricks {
        return Err(TowerRefused::NotEnoughBricks);
    }
    match grid.request_build(pos, None) {
        Ok(()) => Ok(bricks),
        Err(why) => Err(TowerRefused::Rejected(why)),
    }
}

/// The second half of building a tower: the tower `entity` now stands on
/// the cell `pos`, which the first half has blocked; it is entered as the
/// cell's owner and counted, and what is returned is the payment of `bricks`
/// that is due from the player.
pub fn finish_build_tower(
    grid: &mut Grid,
    tower_info: &mut TowerInfo,
    tower: &TowerTypes,
    pos: &Cell,
    entity: u64,
    bricks: u32,
) -> (payment: PlayerUpdateEvent)
    requires
        old(grid).wf(),
        old(grid)@.in_bounds(*pos),
        old(tower_info).wf(),
        old(tower_info)@.dom().contains(*tower) ==> old(tower_info)@[*tower].tower_count < u32::MAX
            && tower.price(old(tower_info)@[*tower].tower_count + 1) <= u32::MAX,
    ensures
        final(grid).wf(),
        final(grid)@ == old(grid)@.occupy(*pos, Some(entity)),
        final(tower_info).wf(),
        final(tower_info)@ == if old(tower_info)@.dom().contains(*tower) {
            old(tower_info)@.insert(
                *tower,
                TowerData {
                    tower_count: (old(tower_info)@[*tower].tower_count + 1) as u32,
                    current_cost: tower.price(old(tower_info)@[*tower].tower_count + 1) as u32,
                    ..old(tower_info)@[*tower]
                },
            )
        } else {
            old(tower_info)@
        },
        payment == PlayerUpdateEvent::Build(bricks),
{
    grid.set_occupied(pos, Some(entity));
    tower_info.build_tower(tower);
    PlayerUpdateEvent::Build(bricks)
}

/// Takes down the tower on `pos`, if one stands there: the cell is freed,
/// the kind `tower` counts one tower less, and the tower is returned.
pub fn remove_tower(grid: &mut Grid, tower_info: &mut TowerInfo, tower: &TowerTypes, pos: &Cell) -> (removed:
    Option<u64>)
    requires
        old(grid).wf(),
        old(grid)@.in_bounds(*pos),
        old(tower_info).wf(),
        old(tower_info)@.dom().contains(*tower) ==> old(tower_info)@[*tower].tower_count > 0
            && tower.price(old(tower_info)@[*tower].tower_count - 1) <= u32::MAX,
    ensures
        final(grid).wf(),
        final(tower_info).wf(),
        removed == if old(grid)@.owners.dom().contains(*pos) {
            Some(old(grid)@.owners[*pos])
        } else {
            None
        },
        final(grid)@ == if removed is Some { old(grid)@.vacate(*pos) } else { old(grid)@ },
        final(tower_info)@ == if removed is Some && old(tower_info)@.dom().contains(*tower) {
            old(tower_info)@.insert(
                *tower,
                TowerData {
                    tower_count: (old(tower_info)@[*tower].tower_count - 1) as u32,
                    current_cost: tower.price(old(tower_info)@[*tower].tower_count - 1) as u32,
                    ..old(tower_info)@[*tower]
                },
            )
        } else {
            old(tower_info)@
        },
        old(grid)@.routable() ==> final(grid)@.routable(),
{
    match grid.get_tower(*pos) {
        Some(entity) => {
            let _ = grid.request_remove(pos);
            tower_info.remove_tower(tower);
            Some(entity)
        },
        None => None,
    }
}

} // verus!
