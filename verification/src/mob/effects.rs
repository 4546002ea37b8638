//! Effects that last for a while: a unit has at most one of each kind.

use vstd::prelude::*;

verus! {

/// The kinds of effect. `NoEffect` stands for no effect at all and is never
/// held.
#[derive(Debug, Clone, PartialEq, Hash, Eq, Copy, Structural)]
pub enum EffectType {
    NoEffect,
    Slow,
}

impl EffectType {
    pub fn is_none(&self) -> (b: bool)
        ensures
            b == (*self == EffectType::NoEffect),
    {
        match self {
            EffectType::NoEffect => true,
            EffectType::Slow => false,
        }
    }

    pub fn is(&self, other: &EffectType) -> (b: bool)
        ensures
            b == (*self == *other),
    {
        match (self, other) {
            (EffectType::NoEffect, EffectType::NoEffect) => true,
            (EffectType::Slow, EffectType::Slow) => true,
            _ => false,
        }
    }
}

/// An effect on a unit: its kind, how much longer it lasts, and how strong
/// it is.
#[derive(Debug, Clone, Copy)]
pub struct StatusEffect {
    pub effect_type: EffectType,
    /// The time that is left, in the unit in which ticks are measured.
    pub remaining: u64,
    pub potency: u32,
}

/// The hundredths of its speed that a slowed unit keeps: a hundred less the
/// potency, and never less than one.
pub open spec fn slow_percent(potency: u32) -> u32 {
    if potency >= 99 {
        1
    } else {
        (100 - potency) as u32
    }
}

/// The effects of `m` after the time `dt`: those that last longer, with
/// that much less time left.
pub open spec fn ticked(m: Map<EffectType, StatusEffect>, dt: u64) -> Map<EffectType, StatusEffect> {
    Map::new(
        |k: EffectType| m.dom().contains(k) && m[k].remaining > dt,
        |k: EffectType|
            StatusEffect {
                effect_type: m[k].effect_type,
                remaining: (m[k].remaining - dt) as u64,
                potency: m[k].potency,
            },
    )
}

/// The hundredths of its base speed at which a unit with the effects `m`
/// moves: slowed if a slow effect with time left is on it.
pub open spec fn speed_percent(m: Map<EffectType, StatusEffect>) -> u32 {
    if m.dom().contains(EffectType::Slow) && m[EffectType::Slow].remaining > 0 {
        slow_percent(m[EffectType::Slow].potency)
    } else {
        100
    }
}

/// The effects on one unit, by kind.
#[derive(Debug)]
pub struct StatusEffects {
    entries: Vec<StatusEffect>,
}

impl View for StatusEffects {
    type V = Map<EffectType, StatusEffect>;

    closed spec fn view(&self) -> Map<EffectType, StatusEffect> {
        Map::new(
            |k: EffectType| self.slot(k) >= 0,
            |k: EffectType| self.entries@[self.slot(k)],
        )
    }
}

/// Where in `s` the effect of the kind `k` stands: the first place among
/// the first `n`, or -1.
spec fn slot_in(s: Seq<StatusEffect>, k: EffectType, n: int) -> int
    decreases n,
{
    if n <= 0 {
        -1
    } else if slot_in(s, k, n - 1) >= 0 {
        slot_in(s, k, n - 1)
    } else if s[n - 1].effect_type == k {
        n - 1
    } else {
        -1
    }
}

proof fn lemma_slot_in(s: Seq<StatusEffect>, k: EffectType, n: int)
    requires
        0 <= n <= s.len(),
    ensures
        -1 <= slot_in(s, k, n) < n,
        slot_in(s, k, n) >= 0 ==> s[slot_in(s, k, n)].effect_type == k,
        slot_in(s, k, n) < 0 ==> forall|i: int| 0 <= i < n ==> (#[trigger] s[i]).effect_type != k,
        forall|i: int| 0 <= i < n && (#[trigger] s[i]).effect_type == k ==> slot_in(s, k, n) <= i,
    decreases n,
{
    if n > 0 {
        lemma_slot_in(s, k, n - 1);
    }
}

impl StatusEffects {
    closed spec fn slot(&self, k: EffectType) -> int {
        slot_in(self.entries@, k, self.entries@.len() as int)
    }

    /// No kind is held twice, and the kind `NoEffect` not at all.
    pub closed spec fn wf(&self) -> bool {
        &&& forall|i: int, j: int|
            0 <= i < j < self.entries@.len() ==> (#[trigger] self.entries@[i]).effect_type != (
            #[trigger] self.entries@[j]).effect_type
        &&& forall|i: int|
            0 <= i < self.entries@.len() ==> (#[trigger] self.entries@[i]).effect_type
                != EffectType::NoEffect
    }

    /// Each effect is held under its own kind, and `NoEffect` is no kind of an
    /// effect that is held.
    pub proof fn law_held_by_kind(&self)
        requires
            self.wf(),
        ensures
            !self@.dom().contains(EffectType::NoEffect),
            forall|k: EffectType| #[trigger] self@.dom().contains(k) ==> self@[k].effect_type == k,
    {
        assert forall|k: EffectType| #[trigger] self@.dom().contains(k) implies self@[k].effect_type
            == k by {
            lemma_slot_in(self.entries@, k, self.entries@.len() as int);
        }
        lemma_slot_in(self.entries@, EffectType::NoEffect, self.entries@.len() as int);
    }

    /// No effects.
    pub fn new() -> (e: StatusEffects)
        ensures
            e.wf(),
            e@ == Map::<EffectType, StatusEffect>::empty(),
    {
        let e = StatusEffects { entries: Vec::new() };
        assert(e@ =~= Map::<EffectType, StatusEffect>::empty());
        e
    }

    /// The place of the effect of the kind `k`, if one is held.
    fn find(&self, k: &EffectType) -> (at: Option<usize>)
        ensures
            at matches Some(i) ==> i == self.slot(*k) && i < self.entries@.len(),
            at is None ==> self.slot(*k) < 0,
    {
        let mut i: usize = 0;
        while i < self.entries.len()
            invariant
                i <= self.entries@.len(),
                slot_in(self.entries@, *k, i as int) < 0,
            decreases self.entries@.len() - i,
        {
            if self.entries[i].effect_type.is(k) {
                proof {
                    lemma_slot_rest(self.entries@, *k, i as int, self.entries@.len() as int);
                }
                return Some(i);
            }
            i += 1;
        }
        None
    }

    /// The effect of the kind `k`, if one is held.
    pub fn get(&self, k: &EffectType) -> (e: Option<StatusEffect>)
        ensures
            e == if self@.dom().contains(*k) { Some(self@[*k]) } else { None },
    {
        match self.find(k) {
            Some(i) => Some(self.entries[i]),
            None => None,
        }
    }

    /// Holds `effect` under its kind, in place of what was held under it.
    pub fn insert(&mut self, effect: StatusEffect)
        requires
            old(self).wf(),
            effect.effect_type != EffectType::NoEffect,
        ensures
            final(self).wf(),
            final(self)@ == old(self)@.insert(effect.effect_type, effect),
    {
        let found = self.find(&effect.effect_type);
        match found {
            Some(i) => {
                self.entries[i] = effect;
            },
            None => {
                self.entries.push(effect);
            },
        }
        proof {
            let before = old(self).entries@;
            let after = final(self).entries@;
            let goal = old(self)@.insert(effect.effect_type, effect);
            let now = final(self)@;
            assert forall|k: EffectType| #[trigger]
                now.dom().contains(k) == goal.dom().contains(k) && (now.dom().contains(k)
                    ==> now[k] == goal[k]) by {
                lemma_slot_in(before, k, before.len() as int);
                lemma_slot_in(after, k, after.len() as int);
                lemma_slot_in(before, effect.effect_type, before.len() as int);
                let sb = slot_in(before, k, before.len() as int);
                let sa = slot_in(after, k, after.len() as int);
                if found is Some {
                    let i = found->0 as int;
                    assert(i == slot_in(before, effect.effect_type, before.len() as int));
                    if sb >= 0 {
                        assert(after[sb].effect_type == k);
                    }
                    if sa >= 0 {
                        assert(before[sa].effect_type == k);
                    }
                    assert(sa == sb);
                } else {
                    if sb >= 0 {
                        assert(after[sb].effect_type == k);
                    }
                    if 0 <= sa < before.len() {
                        assert(before[sa].effect_type == k);
                    }
                    if k == effect.effect_type {
                        assert(after[before.len() as int].effect_type == k);
                        assert(sa == before.len());
                    } else {
                        assert(sa == sb);
                    }
                }
            }
            assert(final(self)@ =~= old(self)@.insert(effect.effect_type, effect));
        }
    }

    /// The hundredths of its base speed at which the unit moves.
    pub fn speed_percent(&self) -> (percent: u32)
        ensures
            percent == speed_percent(self@),
            1 <= percent <= 100,
    {
        match self.get(&EffectType::Slow) {
            Some(slow) => {
                if slow.remaining > 0 {
                    if slow.potency >= 99 {
                        1
                    } else {
                        100 - slow.potency
                    }
                } else {
                    100
                }
            },
            None => 100,
        }
    }

    /// Lets the time `dt` pass: an effect that lasts longer has that much
    /// less time left, every other effect ends and is held no more.
    pub fn tick(&mut self, dt: u64)
        requires
            old(self).wf(),
        ensures
            final(self).wf(),
            final(self)@ == ticked(old(self)@, dt),
    {
        let mut kept: Vec<StatusEffect> = Vec::new();
        let ghost mut origin: Seq<int> = Seq::empty();
        let mut i: usize = 0;
        while i < self.entries.len()
            invariant
                self.wf(),
                *self == *old(self),
                i <= self.entries@.len(),
                origin.len() == kept@.len(),
                forall|a: int| 0 <= a < origin.len() ==> 0 <= #[trigger] origin[a] < i,
                forall|a: int, b: int| 0 <= a < b < origin.len() ==> origin[a] < origin[b],
                forall|a: int|
                    0 <= a < origin.len() ==> {
                        let e = self.entries@[origin[a]];
                        &&& e.remaining > dt
                        &&& (#[trigger] kept@[a]).effect_type == e.effect_type
                        &&& kept@[a].potency == e.potency
                        &&& kept@[a].remaining == e.remaining - dt
                    },
                forall|j: int|
                    0 <= j < i && (#[trigger] self.entries@[j]).remaining > dt ==> exists|a: int|
                        0 <= a < origin.len() && #[trigger] origin[a] == j,
            decreases self.entries@.len() - i,
        {
            let e = self.entries[i];
            if e.remaining > dt {
                kept.push(
                    StatusEffect {
                        effect_type: e.effect_type,
                        remaining: e.remaining - dt,
                        potency: e.potency,
                    },
                );
                proof {
                    let ghost before = origin;
                    origin = origin.push(i as int);
                    assert forall|j: int|
                        0 <= j < i + 1 && (#[trigger] self.entries@[j]).remaining
                            > dt implies exists|a: int|
                        0 <= a < origin.len() && #[trigger] origin[a] == j by {
                        if j < i {
                            let a = choose|a: int| 0 <= a < before.len() && #[trigger] before[a] == j;
                            assert(origin[a] == j);
                        } else {
                            assert(origin[before.len() as int] == j);
                        }
                    }
                }
            }
            i += 1;
        }
        self.entries = kept;
        proof {
            let before = old(self).entries@;
            let after = final(self).entries@;
            assert(final(self).wf());
            let goal = ticked(old(self)@, dt);
            let now = final(self)@;
            assert forall|k: EffectType| #[trigger]
                now.dom().contains(k) == goal.dom().contains(k) && (now.dom().contains(k)
                    ==> now[k] == goal[k]) by {
                lemma_slot_in(before, k, before.len() as int);
                lemma_slot_in(after, k, after.len() as int);
                let sb = slot_in(before, k, before.len() as int);
                let sa = slot_in(after, k, after.len() as int);
                if sa >= 0 {
                    assert(before[origin[sa]].effect_type == k);
                    assert(sb >= 0);
                    assert(sb == origin[sa]);
                }
                if sb >= 0 && before[sb].remaining > dt {
                    let a = choose|a: int| 0 <= a < origin.len() && #[trigger] origin[a] == sb;
                    assert(after[a].effect_type == k);
                    assert(sa >= 0);
                    assert(before[origin[sa]].effect_type == k);
                    assert(origin[sa] == sb);
                }
            }
            assert(final(self)@ =~= ticked(old(self)@, dt));
        }
    }
}

/// Where the first `i` places hold no effect of the kind `k` and place `i`
/// does, that is the place of the kind.
proof fn lemma_slot_rest(s: Seq<StatusEffect>, k: EffectType, i: int, n: int)
    requires
        0 <= i < n <= s.len(),
        slot_in(s, k, i) < 0,
        s[i].effect_type == k,
    ensures
        slot_in(s, k, n) == i,
    decreases n - i,
{
    if n > i + 1 {
        lemma_slot_rest(s, k, i, n - 1);
    }
}

} // verus!
