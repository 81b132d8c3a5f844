//! Health, hitmasks and combat components.

use vstd::prelude::*;
use crate::fpa::Fx16;
use crate::fpa::Fx32;
use crate::fpavec::Vec16;

verus! {

pub const HITMASK_PLAYER: u8 = 0x01;

pub const HITMASK_ALLY: u8 = 0x02;

pub const HITMASK_ENEMY: u8 = 0x04;

pub const HITMASK_NEUTRAL: u8 = 0x08;

pub const HITMASK_DESTRUCTIBLE: u8 = 0x10;

/// If this is set, the hurt component will be removed once it hurts one
/// thing.  This is useful for projectile attacks.
pub const HURT_DIES: u8 = 1;

/// A hitmask.  Only hurtboxes that have an overlap with a health hitmask
/// will hit: with a hurtbox mask `hb` and a health mask `he`, health is
/// deducted on collision only when `hb & he > 0`.
#[derive(Copy, Clone, Eq, PartialEq, Debug, Structural)]
pub struct Hitmask(pub u8);

impl Hitmask {
    /// A default hitmask for enemy attacks.  Hits players, allies, and
    /// neutrals.
    pub fn default_enemy_attack() -> (r: Hitmask)
        ensures
            r.0 == (HITMASK_PLAYER | HITMASK_ALLY | HITMASK_NEUTRAL),
    {
        Hitmask(HITMASK_PLAYER | HITMASK_ALLY | HITMASK_NEUTRAL)
    }

    /// A default hitmask for player attacks.  Hits neutrals,
    /// destructibles, and enemies.
    pub fn default_player_attack() -> (r: Hitmask)
        ensures
            r.0 == (HITMASK_ENEMY | HITMASK_DESTRUCTIBLE | HITMASK_NEUTRAL),
    {
        Hitmask(HITMASK_ENEMY | HITMASK_DESTRUCTIBLE | HITMASK_NEUTRAL)
    }

    /// A default hitmask for ally attacks.  Hits enemies only.
    pub fn default_ally_attack() -> (r: Hitmask)
        ensures
            r.0 == HITMASK_ENEMY,
    {
        Hitmask(HITMASK_ENEMY)
    }

    /// A default hitmask for neutral attacks.  Hits players, enemies,
    /// allies, and other neutrals.
    pub fn default_neutral_attack() -> (r: Hitmask)
        ensures
            r.0 == (HITMASK_PLAYER | HITMASK_ALLY | HITMASK_NEUTRAL | HITMASK_ENEMY),
    {
        Hitmask(HITMASK_PLAYER | HITMASK_ALLY | HITMASK_NEUTRAL | HITMASK_ENEMY)
    }

    /// Custom hitmask num.
    pub fn with_num(num: u8) -> (r: Hitmask)
        ensures
            r.0 == num,
    {
        Hitmask(num)
    }

    /// Set this hitmask to a value.
    pub fn set(&mut self, num: u8)
        ensures
            final(self).0 == num,
    {
        self.0 = num;
    }

    /// Check if two hitmasks collide.
    pub fn collides(&self, other: &Hitmask) -> (r: bool)
        ensures
            r == ((self.0 & other.0) > 0),
    {
        self.0 & other.0 > 0
    }
}

/// An entity's health, removed through combat.  Once health reaches 0 the
/// entity should die.
pub struct Health {
    pub max_health: u8,
    pub health: u8,
    /// Maximum invulnerability time after being hit (in millis).
    pub max_inv_time: Fx16,
    /// Counts to 0.
    pub inv_time: Fx16,
    /// What this is: the component of an ally carries `HITMASK_ALLY` and
    /// is hit by hurtboxes whose mask includes it.
    pub mask: Hitmask,
}

impl Health {
    /// Full health with the given maximum, the default invulnerability
    /// window of 300 millis, and no invulnerability running.
    pub fn new(max_health: u8, mask: Hitmask) -> (r: Health)
        ensures
            r.max_health == max_health,
            r.health == max_health,
            r.mask == mask,
            r.max_inv_time.0 == 300 * 64,
            r.inv_time.0 == 0,
    {
        Health {
            max_health,
            health: max_health,
            mask,
            max_inv_time: Fx16::from_int(300),
            inv_time: Fx16::from_int(0),
        }
    }

    /// Apply a hurt component to this health.  Health never goes below
    /// zero; the result tells whether the entity should die now.
    pub fn hurt(&mut self, hurt: &Hurt) -> (dead: bool)
        ensures
            old(self).health > hurt.damage ==> final(self).health == old(self).health
                - hurt.damage && !dead,
            old(self).health <= hurt.damage ==> final(self).health == 0 && dead,
            final(self).max_health == old(self).max_health,
            final(self).max_inv_time == old(self).max_inv_time,
            final(self).inv_time == old(self).inv_time,
            final(self).mask == old(self).mask,
    {
        if self.health > hurt.damage {
            self.health = self.health - hurt.damage;
            false
        } else {
            self.health = 0;
            true
        }
    }
}

/// If an entity contains this and it collides with an entity that has
/// health, it reduces the health of that entity.
pub struct Hurt {
    /// How much damage to inflict (before resistances).
    pub damage: u8,
    /// What does this hurt?
    pub mask: Hitmask,
    /// Some flags.  See the `HURT_*` constants.
    pub flags: u8,
}

/// Knocks a collided entity back in a fixed direction.
pub struct HurtKnockbackDir {
    pub knockback: Vec16,
    /// Duration in millis.  Counts to 0; at 0 the component is removed.
    pub duration: Fx32,
}

/// Applies the given velocity to an entity until the duration wears off.
/// The velocity applies over one second, so a knockback of (100, 50) with
/// a duration of 1000 millis moves the entity roughly (100, 50).
pub struct Knockback {
    pub knockback: Vec16,
    /// Duration in millis.  Counts to 0; at 0 the component is removed.
    pub duration: Fx32,
}

} // verus!
