//! The player: health, bricks to build with, and points.

use crate::ui::level::LevelMap;
use vstd::prelude::*;

verus! {

/// What the player can do.
#[derive(PartialEq, Debug, Clone, Copy, Hash, Eq, Structural)]
pub enum PlayerAction {
    /// Fire the weapons.
    Fire,
}

/// Something that happened to the player.
#[derive(Debug, Clone, Copy, PartialEq, Eq, Hash, Structural)]
pub enum PlayerUpdateEvent {
    /// Points were scored.
    Score(usize),
    /// An enemy came through and did damage.
    Damage(u32),
    /// Bricks were earned.
    Bricks(u32),
    /// A tower was built for this many bricks.
    Build(u32),
}

impl PlayerUpdateEvent {
    /// The event of scoring `score` points.
    pub fn add_points(score: usize) -> (e: PlayerUpdateEvent)
        ensures
            e == PlayerUpdateEvent::Score(score),
    {
        PlayerUpdateEvent::Score(score)
    }
}

/// The player's health and points.
#[derive(Clone, Copy)]
pub struct PlayerComponent {
    pub health: usize,
    pub points: usize,
}

impl PlayerComponent {
    /// The points after the events `events`: each score is added.
    pub open spec fn points_after(points: int, events: Seq<PlayerUpdateEvent>) -> int
        decreases events.len(),
    {
        if events.len() == 0 {
            points
        } else {
            let before = Self::points_after(points, events.drop_last());
            match events.last() {
                PlayerUpdateEvent::Score(score) => before + score,
                _ => before,
            }
        }
    }
}

/// Adds the points of every score among `events` to the player's points.
/// The sum has to fit.
pub fn player_update_system(player: &mut PlayerComponent, events: &Vec<PlayerUpdateEvent>)
    requires
        PlayerComponent::points_after(old(player).points as int, events@) <= usize::MAX,
    ensures
        final(player).points == PlayerComponent::points_after(old(player).points as int, events@),
        final(player).health == old(player).health,
{
    let mut i: usize = 0;
    while i < events.len()
        invariant
            i <= events.len(),
            player.health == old(player).health,
            player.points == PlayerComponent::points_after(
                old(player).points as int,
                events@.take(i as int),
            ),
            PlayerComponent::points_after(old(player).points as int, events@) <= usize::MAX,
        decreases events.len() - i,
    {
        proof {
            assert(events@.take(i + 1).drop_last() == events@.take(i as int));
            lemma_points_grow(old(player).points as int, events@, i + 1);
        }
        match events[i] {
            PlayerUpdateEvent::Score(score) => {
                player.points += score;
            },
            _ => {},
        }
        i += 1;
    }
    proof {
        assert(events@.take(events.len() as int) == events@);
    }
}

/// Points never shrink: after fewer events there are no more of them.
proof fn lemma_points_grow(points: int, events: Seq<PlayerUpdateEvent>, k: int)
    requires
        0 <= k <= events.len(),
    ensures
        PlayerComponent::points_after(points, events.take(k)) <= PlayerComponent::points_after(
            points,
            events,
        ),
    decreases events.len(),
{
    if k < events.len() {
        assert(events.drop_last().take(k) == events.take(k));
        lemma_points_grow(points, events.drop_last(), k);
    } else {
        assert(events.take(k) == events);
    }
}

/// The player of the tower game.
#[derive(Debug, Clone, Copy)]
pub struct Player {
    pub hp: u32,
    pub bricks: u32,
}

impl Default for Player {
    /// Full health and five bricks.
    fn default() -> (p: Player)
        ensures
            p.hp == 100,
            p.bricks == 5,
    {
        Player { hp: 100, bricks: 5 }
    }
}

impl Player {
    /// Pays `amount` bricks if the player has them, and says whether.
    pub fn remove_bricks(&mut self, amount: u32) -> (paid: bool)
        ensures
            paid == (amount <= old(self).bricks),
            final(self).bricks == if paid { (old(self).bricks - amount) as u32 } else { old(self).bricks },
            final(self).hp == old(self).hp,
    {
        if amount > self.bricks {
            false
        } else {
            self.bricks = self.bricks.saturating_sub(amount);
            true
        }
    }

    /// The player after one event: damage takes health, down to none;
    /// bricks earned are added, up to the most that can be held; a tower is
    /// paid for if the bricks are there, else nothing is paid; a score
    /// changes nothing here.
    pub open spec fn after(hp: u32, bricks: u32, event: PlayerUpdateEvent) -> (u32, u32) {
        match event {
            PlayerUpdateEvent::Damage(damage) => (
                if hp < damage { 0u32 } else { (hp - damage) as u32 },
                bricks,
            ),
            PlayerUpdateEvent::Bricks(earned) => (
                hp,
                if bricks + earned > u32::MAX { u32::MAX } else { (bricks + earned) as u32 },
            ),
            PlayerUpdateEvent::Build(cost) => (
                hp,
                if bricks >= cost { (bricks - cost) as u32 } else { bricks },
            ),
            PlayerUpdateEvent::Score(_) => (hp, bricks),
        }
    }

    /// The player after the events `events`, one after the other.
    pub open spec fn after_all(hp: u32, bricks: u32, events: Seq<PlayerUpdateEvent>) -> (u32, u32)
        decreases events.len(),
    {
        if events.len() == 0 {
            (hp, bricks)
        } else {
            let before = Self::after_all(hp, bricks, events.drop_last());
            Self::after(before.0, before.1, events.last())
        }
    }
}

/// Applies the events `events` to the player, one after the other.
pub fn update(player: &mut Player, events: &Vec<PlayerUpdateEvent>)
    ensures
        (final(player).hp, final(player).bricks) == Player::after_all(
            old(player).hp,
            old(player).bricks,
            events@,
        ),
{
    let mut i: usize = 0;
    while i < events.len()
        invariant
            i <= events.len(),
            (player.hp, player.bricks) == Player::after_all(
                old(player).hp,
                old(player).bricks,
                events@.take(i as int),
            ),
        decreases events.len() - i,
    {
        proof {
            assert(events@.take(i + 1).drop_last() == events@.take(i as int));
        }
        match events[i] {
            PlayerUpdateEvent::Damage(damage) => {
                player.hp = player.hp.saturating_sub(damage);
            },
            PlayerUpdateEvent::Bricks(bricks) => {
                player.bricks = player.bricks.saturating_add(bricks);
            },
            PlayerUpdateEvent::Build(bricks) => {
                if player.bricks >= bricks {
                    player.bricks = player.bricks.saturating_sub(bricks);
                }
            },
            PlayerUpdateEvent::Score(_) => {},
        }
        i += 1;
    }
    proof {
        assert(events@.take(events.len() as int) == events@);
    }
}

/// A player without health is restored to full health, at the price of five
/// levels of the map: that change of level is returned.
pub fn level_down_on_death(player: &mut Player) -> (change: Option<LevelMap>)
    ensures
        change == if old(player).hp == 0 { Some(LevelMap::LevelDown(5)) } else { None },
        final(player).hp == if old(player).hp == 0 { 100 } else { old(player).hp },
        final(player).bricks == old(player).bricks,
{
    if player.hp == 0 {
        player.hp = 100;
        Some(LevelMap::LevelDown(5))
    } else {
        None
    }
}

} // verus!
