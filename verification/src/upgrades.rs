//! The upgrade ledger: five monotone levels, each mapping to a stat bonus
//! and to an escalating purchase cost.

use vstd::prelude::*;

verus! {

/// Levels saturate here; a guard for the arithmetic, not a gameplay cap.
pub const LEVEL_CAP: u32 = 10_000;

/// Base move speed in milli-pixels per second.
pub const PLAYER_SPEED: i64 = 360_000;

/// Base dash cooldown in ms.
pub const DASH_COOLDOWN_MS: i64 = 900;

/// Base dash duration in ms.
pub const DASH_TIME_MS: i64 = 160;

/// Base magnet pull speed in milli-pixels per second.
pub const MAGNET_SPEED: i64 = 120_000;

/// The dash cooldown keeps 88% of its value per level bought.
pub open spec fn dash_cd_decay(l: nat) -> int
    decreases l,
{
    if l == 0 {
        900
    } else {
        dash_cd_decay((l - 1) as nat) * 88 / 100
    }
}

/// Move speed under the ledger: +6% of the base per level.
pub open spec fn spec_player_speed(u: Upgrades) -> int {
    PLAYER_SPEED + 21_600 * u.speed
}

/// The five upgrade categories.
#[derive(Clone, Copy, PartialEq, Eq, Structural, Debug)]
pub enum UpgradeKind {
    Speed,
    DashCooldown,
    DashDuration,
    ShardValue,
    Magnet,
}

#[derive(Clone, Copy, PartialEq, Eq, Structural, Debug)]
pub struct Upgrades {
    pub speed: u32,
    pub dash_cd: u32,
    pub dash_time: u32,
    pub shard_value: u32,
    pub magnet: u32,
}

impl Upgrades {
    pub open spec fn wf(self) -> bool {
        &&& self.speed <= LEVEL_CAP
        &&& self.dash_cd <= LEVEL_CAP
        &&& self.dash_time <= LEVEL_CAP
        &&& self.shard_value <= LEVEL_CAP
        &&& self.magnet <= LEVEL_CAP
    }

    pub fn new() -> (u: Upgrades)
        ensures
            u.wf(),
            u.speed == 0 && u.dash_cd == 0 && u.dash_time == 0,
            u.shard_value == 0 && u.magnet == 0,
    {
        Upgrades { speed: 0, dash_cd: 0, dash_time: 0, shard_value: 0, magnet: 0 }
    }

    /// Move speed: +6% of the base per level.
    pub fn player_speed(&self) -> (r: i64)
        requires
            self.wf(),
        ensures
            r == spec_player_speed(*self),
            PLAYER_SPEED <= r <= 600_000_000,
    {
        PLAYER_SPEED + 21_600 * (self.speed as i64)
    }

    /// Dash cooldown: keeps 88% per level, floored at one millisecond so
    /// a running cooldown always exists and the spent charge always
    /// refills.
    pub fn dash_cd_ms(&self) -> (r: i64)
        requires
            self.wf(),
        ensures
            r == (if dash_cd_decay(self.dash_cd as nat) < 1 {
                1int
            } else {
                dash_cd_decay(self.dash_cd as nat)
            }),
            1 <= r <= DASH_COOLDOWN_MS,
    {
        let mut cd: i64 = DASH_COOLDOWN_MS;
        let mut i: u32 = 0;
        while i < self.dash_cd
            invariant
                0 <= i <= self.dash_cd,
                cd == dash_cd_decay(i as nat),
                0 <= cd <= DASH_COOLDOWN_MS,
            decreases self.dash_cd - i,
        {
            cd = (((cd * 88) as u64) / 100) as i64;
            i = i + 1;
        }
        if cd < 1 {
            1
        } else {
            cd
        }
    }

    /// Dash duration: +8% of the base per level, truncated to whole ms.
    pub fn dash_time_ms(&self) -> (r: i64)
        requires
            self.wf(),
        ensures
            r == DASH_TIME_MS * (100 + 8 * self.dash_time) / 100,
            DASH_TIME_MS <= r <= 1_000_000,
    {
        let t: i64 = DASH_TIME_MS * (100 + 8 * (self.dash_time as i64));
        ((t as u64) / 100) as i64
    }

    /// Extra currency per shard: +2 per level.
    pub fn shard_currency_bonus(&self) -> (r: i64)
        requires
            self.wf(),
        ensures
            r == 2 * self.shard_value,
            0 <= r <= 20_000,
    {
        2 * (self.shard_value as i64)
    }

    /// Magnet pull speed: +50 pixels per second per level.
    pub fn magnet_speed(&self) -> (r: i64)
        requires
            self.wf(),
        ensures
            r == MAGNET_SPEED + 50_000 * self.magnet,
            MAGNET_SPEED <= r <= 700_000_000,
    {
        MAGNET_SPEED + 50_000 * (self.magnet as i64)
    }

    pub fn cost_speed(&self) -> (r: i64)
        requires
            self.wf(),
        ensures
            r == 60 + 45 * self.speed,
    {
        60 + 45 * (self.speed as i64)
    }

    pub fn cost_dash_cd(&self) -> (r: i64)
        requires
            self.wf(),
        ensures
            r == 80 + 50 * self.dash_cd,
    {
        80 + 50 * (self.dash_cd as i64)
    }

    pub fn cost_dash_time(&self) -> (r: i64)
        requires
            self.wf(),
        ensures
            r == 80 + 50 * self.dash_time,
    {
        80 + 50 * (self.dash_time as i64)
    }

    pub fn cost_shard_value(&self) -> (r: i64)
        requires
            self.wf(),
        ensures
            r == 40 + 30 * self.shard_value,
    {
        40 + 30 * (self.shard_value as i64)
    }

    pub fn cost_magnet(&self) -> (r: i64)
        requires
            self.wf(),
        ensures
            r == 50 + 40 * self.magnet,
    {
        50 + 40 * (self.magnet as i64)
    }
}

} // verus!
