//! The session orchestrator: owns the player, every entity pool and the
//! economy, and drives the fixed per-tick update order — buffs, player
//! motion, spawns, boss, steering, shooter fire, near-miss sampling, enemy
//! contact, shard pickup and attraction, power-up pickup, bullets, combo
//! decay, transient-effect decay.

use vstd::prelude::*;
use crate::economy::{
    capped, eco_decayed, floor0, Economy, COMBO_CAP, COMBO_TIME_MS, CURRENCY_CAP, SCORE_CAP,
};
use crate::effects::{
    decay_particles, decay_particles_vec, decay_textfx, decay_textfx_vec, Label, Particle, TextFx,
};
use crate::entities::{
    Boss, Bullet, Enemy, PowerKind, PowerUp, Shard, BOSS_RADIUS, BOSS_TIME_MS, CLOCK_LIMIT_MS,
    KIND_SHOOTER, POWERUP_RADIUS, SHARD_RADIUS,
};
use crate::geom::{
    clamp64, clamp_spec, dist_sq, dist_sq_spec, mul_div, qdiv, remu, sat_coord, unit_comp_spec,
    unit_scaled, Vec2, COORD_LIMIT,
};
use crate::player::{MoveInput, Player, PLAYER_RADIUS};
use crate::rng::sample_range;
use crate::save::SaveRecord;
use crate::trig::{cos_mrad, sin_mrad, sin_mrad_spec, TAU_MRAD};
use crate::upgrades::{UpgradeKind, Upgrades, LEVEL_CAP};

verus! {

/// A fresh enemy arrives every so many ms at first ...
pub const ENEMY_SPAWN_START_MS: i64 = 1150;

/// ... and the interval shrinks toward this floor as the round wears on.
pub const ENEMY_SPAWN_MIN_MS: i64 = 260;

/// A shard appears every so many ms.
pub const SHARD_SPAWN_MS: i64 = 1100;

/// Enemies closer than this (but not touching) can score a near miss.
pub const NEAR_MISS_DIST: i64 = 36_000;

/// Score a near miss pays.
pub const NEAR_MISS_BONUS: i64 = 3;

/// The first power-up becomes due this many ms into a round.
pub const POWERUP_FIRST_MS: i64 = 6000;

/// A power-up re-arms with a delay below this bound, in ms.
pub const POWERUP_DELAY_LIMIT_MS: i64 = 13_000;

/// Power-up buff windows, in ms.
pub const BUFF_INVULN_MS: i64 = 5000;

pub const BUFF_MAGNET_MS: i64 = 6000;

pub const BUFF_DDASH_MS: i64 = 8000;

/// The first boss arrives at this score ...
pub const BOSS_SCORE_START: i64 = 200;

/// ... and each cleared boss pushes the next threshold up by this much.
pub const BOSS_SCORE_STEP: i64 = 250;

/// Score and currency a cleared boss pays.
pub const BOSS_REWARD: i64 = 50;

/// Shards drift toward the player inside this radius, in milli-pixels.
pub const MAGNET_RADIUS: i64 = 180_000;

/// The boosted magnet radius while the magnet buff runs.
pub const MAGNET_RADIUS_BOOSTED: i64 = 260_000;

/// Extra pull speed while the magnet buff runs.
pub const MAGNET_BOOST_SPEED: i64 = 220_000;

/// Bullets are culled this far outside the playfield, in milli-pixels.
pub const BULLET_MARGIN: i64 = 10_000;

/// Screen shake decays 18 pixels per second.
pub const SHAKE_DECAY: i64 = 18;

/// Enemies spawn this far outside the playfield edge.
pub const SPAWN_MARGIN: i64 = 24_000;

pub struct Game {
    /// Playfield width in milli-pixels.
    pub width: i64,
    /// Playfield height in milli-pixels.
    pub height: i64,
    /// Simulated time since the session began, in ms.
    pub t_ms: i64,
    pub player: Player,
    pub enemies: Vec<Enemy>,
    pub shards: Vec<Shard>,
    pub bullets: Vec<Bullet>,
    pub powerups: Vec<PowerUp>,
    pub particles: Vec<Particle>,
    pub textfx: Vec<TextFx>,
    /// Until the next enemy spawn, in ms.
    pub spawn_timer: i64,
    /// Until the next shard spawn, in ms.
    pub shard_timer: i64,
    /// Until the next power-up spawn, in ms.
    pub powerup_timer: i64,
    /// Accumulated spawn-rate pressure, in microseconds.
    pub enemy_rate_boost_us: i64,
    pub eco: Economy,
    pub upgrades: Upgrades,
    pub paused: bool,
    pub over: bool,
    pub shop_open: bool,
    /// Remaining invulnerability buff, in ms.
    pub power_invuln: i64,
    /// Remaining magnet buff, in ms.
    pub power_magnet: i64,
    /// Remaining extra-dash buff, in ms.
    pub power_ddash: i64,
    pub boss: Option<Boss>,
    /// Score at which the next boss arrives.
    pub next_boss_score: i64,
    /// Screen shake amplitude, in milli-pixels; cosmetic.
    pub shake: i64,
}

/// One buff tick: the three windows run down, the dash capacity follows
/// the extra-dash buff, and the charge count is clipped into the
/// capacity.  Nothing else moves.
pub open spec fn buffs_rel(pre: Game, post: Game, dt: int) -> bool {
    &&& post.power_invuln == floor0(pre.power_invuln - dt)
    &&& post.power_magnet == floor0(pre.power_magnet - dt)
    &&& post.power_ddash == floor0(pre.power_ddash - dt)
    &&& post.player.dashes_max == (if floor0(pre.power_ddash - dt) > 0 {
        2int
    } else {
        1int
    })
    &&& post.player.dashes_left == (if pre.player.dashes_left > post.player.dashes_max {
        post.player.dashes_max as int
    } else {
        pre.player.dashes_left as int
    })
    &&& post.player == (Player {
        dashes_max: post.player.dashes_max,
        dashes_left: post.player.dashes_left,
        ..pre.player
    })
    &&& post == (Game {
        power_invuln: post.power_invuln,
        power_magnet: post.power_magnet,
        power_ddash: post.power_ddash,
        player: post.player,
        ..pre
    })
}

/// One player-motion stage: only the player moves, by one player tick
/// under the ledger's move speed.
pub open spec fn player_stage_rel(pre: Game, post: Game, dt: int, input: MoveInput) -> bool {
    &&& post == (Game { player: post.player, ..pre })
    &&& crate::player::player_tick_rel(
        pre.player,
        post.player,
        dt,
        crate::upgrades::spec_player_speed(pre.upgrades),
        input,
        pre.width as int,
        pre.height as int,
    )
}

impl Game {
    pub open spec fn wf(self) -> bool {
        &&& 100_000 <= self.width <= 500_000_000
        &&& 100_000 <= self.height <= 500_000_000
        &&& 0 <= self.t_ms <= CLOCK_LIMIT_MS
        &&& self.player.wf(self.width as int, self.height as int)
        &&& self.eco.wf()
        &&& self.upgrades.wf()
        &&& (forall|i: int| 0 <= i < self.enemies.len() ==> (#[trigger] self.enemies[i]).wf())
        &&& (forall|i: int| 0 <= i < self.shards.len() ==> (#[trigger] self.shards[i]).wf())
        &&& (forall|i: int| 0 <= i < self.bullets.len() ==> (#[trigger] self.bullets[i]).wf())
        &&& (forall|i: int| 0 <= i < self.powerups.len() ==> (#[trigger] self.powerups[i]).wf())
        &&& (forall|i: int| 0 <= i < self.particles.len() ==> (#[trigger] self.particles[i]).wf())
        &&& (forall|i: int| 0 <= i < self.textfx.len() ==> (#[trigger] self.textfx[i]).wf())
        &&& 0 < self.spawn_timer <= ENEMY_SPAWN_START_MS
        &&& 0 < self.shard_timer <= SHARD_SPAWN_MS
        &&& 0 < self.powerup_timer <= POWERUP_DELAY_LIMIT_MS
        &&& 0 <= self.enemy_rate_boost_us <= 1_000_000_000_000_000
        &&& 0 <= self.power_invuln <= 10_000
        &&& 0 <= self.power_magnet <= 10_000
        &&& 0 <= self.power_ddash <= 10_000
        &&& (match self.boss {
            Some(b) => b.wf(),
            None => true,
        })
        &&& 0 <= self.next_boss_score <= 2 * SCORE_CAP
        &&& 0 <= self.shake <= 20_000
    }

    /// A fresh session on the given playfield: defaults everywhere, no
    /// persisted state applied yet.
    pub fn new(width: i64, height: i64) -> (g: Game)
        requires
            100_000 <= width <= 500_000_000,
            100_000 <= height <= 500_000_000,
        ensures
            g.wf(),
            g.width == width && g.height == height,
            g.t_ms == 0,
            g.player.pos.x == width / 2 && g.player.pos.y == height / 2,
            g.player.dashes_left == 1 && g.player.dashes_max == 1,
            g.enemies@.len() == 0 && g.shards@.len() == 0 && g.bullets@.len() == 0,
            g.powerups@.len() == 0 && g.particles@.len() == 0 && g.textfx@.len() == 0,
            g.spawn_timer == ENEMY_SPAWN_START_MS,
            g.shard_timer == SHARD_SPAWN_MS,
            g.powerup_timer == POWERUP_FIRST_MS,
            g.enemy_rate_boost_us == 0,
            g.eco.score == 0 && g.eco.currency == 0 && g.eco.best == 0,
            g.eco.combo == 0 && g.eco.combo_t == 0,
            g.upgrades.speed == 0 && g.upgrades.dash_cd == 0 && g.upgrades.dash_time == 0,
            g.upgrades.shard_value == 0 && g.upgrades.magnet == 0,
            !g.paused && !g.over && !g.shop_open,
            g.power_invuln == 0 && g.power_magnet == 0 && g.power_ddash == 0,
            g.boss is None,
            g.next_boss_score == BOSS_SCORE_START,
            g.shake == 0,
    {
        Game {
            width,
            height,
            t_ms: 0,
            player: Player::new(width, height),
            enemies: Vec::new(),
            shards: Vec::new(),
            bullets: Vec::new(),
            powerups: Vec::new(),
            particles: Vec::new(),
            textfx: Vec::new(),
            spawn_timer: ENEMY_SPAWN_START_MS,
            shard_timer: SHARD_SPAWN_MS,
            powerup_timer: POWERUP_FIRST_MS,
            enemy_rate_boost_us: 0,
            eco: Economy::new(),
            upgrades: Upgrades::new(),
            paused: false,
            over: false,
            shop_open: false,
            power_invuln: 0,
            power_magnet: 0,
            power_ddash: 0,
            boss: None,
            next_boss_score: BOSS_SCORE_START,
            shake: 0,
        }
    }

    /// Starts a new round: everything round-scoped resets; currency,
    /// upgrades and the best score persist.
    pub fn reset_round(&mut self)
        requires
            old(self).wf(),
        ensures
            final(self).wf(),
            final(self).width == old(self).width && final(self).height == old(self).height,
            final(self).t_ms == old(self).t_ms,
            final(self).eco.currency == old(self).eco.currency,
            final(self).eco.best == old(self).eco.best,
            final(self).eco.score == 0 && final(self).eco.combo == 0 && final(self).eco.combo_t
                == 0,
            final(self).upgrades == old(self).upgrades,
            final(self).player.pos.x == old(self).width / 2,
            final(self).player.pos.y == old(self).height / 2,
            final(self).player.dashes_left == 1 && final(self).player.dashes_max == 1,
            final(self).enemies@.len() == 0 && final(self).shards@.len() == 0,
            final(self).bullets@.len() == 0 && final(self).powerups@.len() == 0,
            final(self).particles@.len() == 0 && final(self).textfx@.len() == 0,
            final(self).spawn_timer == ENEMY_SPAWN_START_MS,
            final(self).shard_timer == SHARD_SPAWN_MS,
            final(self).powerup_timer == POWERUP_FIRST_MS,
            final(self).enemy_rate_boost_us == 0,
            !final(self).paused && !final(self).over && !final(self).shop_open,
            final(self).power_invuln == 0 && final(self).power_magnet == 0,
            final(self).power_ddash == 0,
            final(self).boss is None,
            final(self).next_boss_score == old(self).next_boss_score,
            final(self).shake == 0,
    {
        self.player = Player::new(self.width, self.height);
        self.enemies = Vec::new();
        self.shards = Vec::new();
        self.bullets = Vec::new();
        self.powerups = Vec::new();
        self.particles = Vec::new();
        self.textfx = Vec::new();
        self.spawn_timer = ENEMY_SPAWN_START_MS;
        self.shard_timer = SHARD_SPAWN_MS;
        self.powerup_timer = POWERUP_FIRST_MS;
        self.enemy_rate_boost_us = 0;
        self.eco.score = 0;
        self.eco.combo = 0;
        self.eco.combo_t = 0;
        self.paused = false;
        self.over = false;
        self.shop_open = false;
        self.power_invuln = 0;
        self.power_magnet = 0;
        self.power_ddash = 0;
        self.boss = None;
        self.shake = 0;
    }

    /// Takes a loaded record into the session: currency and levels as
    /// stored (levels clipped to the arithmetic cap), best kept monotone.
    pub fn apply_save(&mut self, rec: &SaveRecord)
        requires
            old(self).wf(),
        ensures
            final(self).wf(),
            final(self).eco.currency == rec.currency,
            final(self).eco.best == (if rec.best > old(self).eco.best {
                rec.best as int
            } else {
                old(self).eco.best as int
            }),
            final(self).upgrades.speed == (if rec.speed > LEVEL_CAP {
                LEVEL_CAP
            } else {
                rec.speed
            }),
            final(self).upgrades.dash_cd == (if rec.dash_cd > LEVEL_CAP {
                LEVEL_CAP
            } else {
                rec.dash_cd
            }),
            final(self).upgrades.dash_time == (if rec.dash_time > LEVEL_CAP {
                LEVEL_CAP
            } else {
                rec.dash_time
            }),
            final(self).upgrades.shard_value == (if rec.shard_value > LEVEL_CAP {
                LEVEL_CAP
            } else {
                rec.shard_value
            }),
            final(self).upgrades.magnet == (if rec.magnet > LEVEL_CAP {
                LEVEL_CAP
            } else {
                rec.magnet
            }),
            *final(self) == (Game {
                eco: final(self).eco,
                upgrades: final(self).upgrades,
                ..*old(self)
            }),
            final(self).eco == (Economy {
                currency: final(self).eco.currency,
                best: final(self).eco.best,
                ..old(self).eco
            }),
    {
        self.eco.currency = rec.currency as i64;
        if rec.best as i64 > self.eco.best {
            self.eco.best = rec.best as i64;
        }
        self.upgrades.speed = if rec.speed > LEVEL_CAP {
            LEVEL_CAP
        } else {
            rec.speed
        };
        self.upgrades.dash_cd = if rec.dash_cd > LEVEL_CAP {
            LEVEL_CAP
        } else {
            rec.dash_cd
        };
        self.upgrades.dash_time = if rec.dash_time > LEVEL_CAP {
            LEVEL_CAP
        } else {
            rec.dash_time
        };
        self.upgrades.shard_value = if rec.shard_value > LEVEL_CAP {
            LEVEL_CAP
        } else {
            rec.shard_value
        };
        self.upgrades.magnet = if rec.magnet > LEVEL_CAP {
            LEVEL_CAP
        } else {
            rec.magnet
        };
    }

    /// The record to persist: currency and best clipped into the stored
    /// 32-bit range, levels as they stand.
    pub fn save_record(&self) -> (r: SaveRecord)
        requires
            self.wf(),
        ensures
            r.currency == clamp_spec(self.eco.currency as int, i32::MIN as int, i32::MAX as int),
            r.best == clamp_spec(self.eco.best as int, i32::MIN as int, i32::MAX as int),
            r.speed == self.upgrades.speed,
            r.dash_cd == self.upgrades.dash_cd,
            r.dash_time == self.upgrades.dash_time,
            r.shard_value == self.upgrades.shard_value,
            r.magnet == self.upgrades.magnet,
    {
        let cur: i64 = clamp64(self.eco.currency, -2_147_483_648, 2_147_483_647);
        let best: i64 = clamp64(self.eco.best, -2_147_483_648, 2_147_483_647);
        SaveRecord {
            currency: cur as i32,
            speed: self.upgrades.speed,
            dash_cd: self.upgrades.dash_cd,
            dash_time: self.upgrades.dash_time,
            shard_value: self.upgrades.shard_value,
            magnet: self.upgrades.magnet,
            best: best as i32,
        }
    }

    /// Emits a burst of particles around `pos`, each with a drawn heading,
    /// speed, lifetime and size.
    fn add_particles(&mut self, pos: Vec2, amount: usize, speed: i64)
        requires
            old(self).wf(),
            pos.coords_bounded(),
            0 < speed <= 500_000,
            amount <= 100,
        ensures
            final(self).wf(),
            final(self).particles@.len() == old(self).particles@.len() + amount,
            final(self).particles@.subrange(0, old(self).particles@.len() as int) == old(
                self,
            ).particles@,
            forall|k: int|
                old(self).particles@.len() <= k < final(self).particles@.len() ==> {
                    &&& (#[trigger] final(self).particles@[k]).pos == pos
                    &&& -speed <= final(self).particles@[k].vel.x < speed
                    &&& -speed <= final(self).particles@[k].vel.y < speed
                    &&& 600 <= final(self).particles@[k].life < 1200
                    &&& 6000 <= final(self).particles@[k].size < 12_000
                },
            *final(self) == (Game { particles: final(self).particles, ..*old(self) }),
    {
        let mut i: usize = 0;
        while i < amount
            invariant
                i <= amount,
                amount <= 100,
                pos.coords_bounded(),
                0 < speed <= 500_000,
                self.particles@.len() == old(self).particles@.len() + i,
                self.particles@.subrange(0, old(self).particles@.len() as int) == old(
                    self,
                ).particles@,
                forall|k: int|
                    0 <= k < self.particles@.len() ==> (#[trigger] self.particles@[k]).wf(),
                forall|k: int|
                    old(self).particles@.len() <= k < self.particles@.len() ==> {
                        &&& (#[trigger] self.particles@[k]).pos == pos
                        &&& -speed <= self.particles@[k].vel.x < speed
                        &&& -speed <= self.particles@[k].vel.y < speed
                        &&& 600 <= self.particles@[k].life < 1200
                        &&& 6000 <= self.particles@[k].size < 12_000
                    },
                *self == (Game { particles: self.particles, ..*old(self) }),
            decreases amount - i,
        {
            let ang: i64 = sample_range(0, TAU_MRAD);
            let sp: i64 = sample_range(0, speed);
            let c: i64 = cos_mrad(ang);
            let sn: i64 = sin_mrad(ang);
            proof {
                assert(-500_000_000 <= c * sp <= 500_000_000int && crate::geom::abs_spec(c * sp)
                    <= sp * 1000) by (nonlinear_arith)
                    requires -1000 <= c <= 1000, 0 <= sp < 500_000int;
                assert(-500_000_000 <= sn * sp <= 500_000_000int && crate::geom::abs_spec(sn * sp)
                    <= sp * 1000) by (nonlinear_arith)
                    requires -1000 <= sn <= 1000, 0 <= sp < 500_000int;
                crate::geom::lemma_qdiv_bound(c * sp, 1000, sp as int);
                crate::geom::lemma_qdiv_bound(sn * sp, 1000, sp as int);
            }
            let vx: i64 = mul_div(c, sp, 1000);
            let vy: i64 = mul_div(sn, sp, 1000);
            let life: i64 = 600 + sample_range(0, 600);
            let size: i64 = 6000 + sample_range(0, 6000);
            let ghost before = self.particles@;
            self.particles.push(
                Particle { pos, vel: Vec2 { x: vx, y: vy }, life, size },
            );
            proof {
                assert(self.particles@.subrange(0, old(self).particles@.len() as int) =~= before
                    .subrange(0, old(self).particles@.len() as int));
            }
            i = i + 1;
        }
    }

    /// Ends the round: the best score is recorded, overlays close, and a
    /// burst marks the spot.  Everything else stands as it was.
    fn game_over(&mut self)
        requires
            old(self).wf(),
        ensures
            final(self).wf(),
            final(self).over && !final(self).shop_open && !final(self).paused,
            final(self).shake == 20_000,
            final(self).eco.best == (if old(self).eco.score > old(self).eco.best {
                old(self).eco.score
            } else {
                old(self).eco.best
            }),
            final(self).eco == (Economy { best: final(self).eco.best, ..old(self).eco }),
            final(self).particles@.len() == old(self).particles@.len() + 80,
            final(self).particles@.subrange(0, old(self).particles@.len() as int) == old(
                self,
            ).particles@,
            *final(self) == (Game {
                over: true,
                shop_open: false,
                paused: false,
                shake: 20_000,
                eco: final(self).eco,
                particles: final(self).particles,
                ..*old(self)
            }),
    {
        self.shake = 20_000;
        let p = self.player.pos;
        self.add_particles(p, 80, 420_000);
        self.eco.note_best();
        self.over = true;
        self.shop_open = false;
        self.paused = false;
    }

    /// Runs the power-up buff windows down and sizes the dash charge
    /// capacity after them, keeping the charge count within the capacity.
    fn buffs_tick(&mut self, dt: i64)
        requires
            old(self).wf(),
            0 < dt <= 1000,
        ensures
            final(self).wf(),
            buffs_rel(*old(self), *final(self), dt as int),
    {
        let ni: i64 = self.power_invuln - dt;
        self.power_invuln = if ni < 0 { 0 } else { ni };
        let nm: i64 = self.power_magnet - dt;
        self.power_magnet = if nm < 0 { 0 } else { nm };
        let nd: i64 = self.power_ddash - dt;
        self.power_ddash = if nd < 0 { 0 } else { nd };
        let cap: i32 = if self.power_ddash > 0 { 2 } else { 1 };
        self.player.dashes_max = cap;
        if self.player.dashes_left > cap {
            self.player.dashes_left = cap;
        }
    }

    /// Drops a fresh enemy just outside one of the four playfield edges,
    /// with a drawn steering kind.
    fn spawn_enemy(&mut self)
        requires
            old(self).wf(),
        ensures
            final(self).wf(),
            final(self).enemies@.len() == old(self).enemies@.len() + 1,
            final(self).enemies@.subrange(0, old(self).enemies@.len() as int) == old(
                self,
            ).enemies@,
            final(self).enemies@.last().wf(),
            final(self).enemies@.last().kind <= 2,
            final(self).enemies@.last().cool == crate::entities::SHOOTER_COOL_START_MS,
            ({
                let e = final(self).enemies@.last();
                ((e.pos.y == -SPAWN_MARGIN || e.pos.y == old(self).height + SPAWN_MARGIN) && 0
                    <= e.pos.x < old(self).width) || ((e.pos.x == -SPAWN_MARGIN || e.pos.x == old(
                    self,
                ).width + SPAWN_MARGIN) && 0 <= e.pos.y < old(self).height)
            }),
            *final(self) == (Game { enemies: final(self).enemies, ..*old(self) }),
    {
        let side: i64 = sample_range(0, 4);
        let pos: Vec2 = if side == 0 {
            Vec2 { x: sample_range(0, self.width), y: -SPAWN_MARGIN }
        } else if side == 1 {
            Vec2 { x: sample_range(0, self.width), y: self.height + SPAWN_MARGIN }
        } else if side == 2 {
            Vec2 { x: -SPAWN_MARGIN, y: sample_range(0, self.height) }
        } else {
            Vec2 { x: self.width + SPAWN_MARGIN, y: sample_range(0, self.height) }
        };
        let kind: u8 = sample_range(0, 3) as u8;
        let angle: i64 = sample_range(0, TAU_MRAD);
        let ghost before = self.enemies@;
        self.enemies.push(Enemy::new(pos, kind, angle));
        proof {
            assert(self.enemies@.subrange(0, before.len() as int) =~= before);
        }
    }

    /// Drops a fresh shard well inside the playfield.
    fn spawn_shard(&mut self)
        requires
            old(self).wf(),
        ensures
            final(self).wf(),
            final(self).shards@.len() == old(self).shards@.len() + 1,
            final(self).shards@.subrange(0, old(self).shards@.len() as int) == old(self).shards@,
            final(self).shards@.last().wf(),
            40_000 <= final(self).shards@.last().pos.x < old(self).width - 40_000,
            40_000 <= final(self).shards@.last().pos.y < old(self).height - 40_000,
            *final(self) == (Game { shards: final(self).shards, ..*old(self) }),
    {
        let pos = Vec2 {
            x: sample_range(40_000, self.width - 40_000),
            y: sample_range(40_000, self.height - 40_000),
        };
        let phase: i64 = sample_range(0, TAU_MRAD);
        let ghost before = self.shards@;
        self.shards.push(Shard::new(pos, phase));
        proof {
            assert(self.shards@.subrange(0, before.len() as int) =~= before);
        }
    }

    /// Drops a fresh power-up well inside the playfield, with a drawn kind.
    fn spawn_powerup(&mut self)
        requires
            old(self).wf(),
        ensures
            final(self).wf(),
            final(self).powerups@.len() == old(self).powerups@.len() + 1,
            final(self).powerups@.subrange(0, old(self).powerups@.len() as int) == old(
                self,
            ).powerups@,
            final(self).powerups@.last().wf(),
            40_000 <= final(self).powerups@.last().pos.x < old(self).width - 40_000,
            40_000 <= final(self).powerups@.last().pos.y < old(self).height - 40_000,
            *final(self) == (Game { powerups: final(self).powerups, ..*old(self) }),
    {
        let r1: i64 = sample_range(0, 1_000_000);
        let kind: PowerKind = if r1 < 340_000 {
            PowerKind::Invuln
        } else {
            let r2: i64 = sample_range(0, 1_000_000);
            if r2 < 500_000 {
                PowerKind::Magnet
            } else {
                PowerKind::DoubleDash
            }
        };
        let pos = Vec2 {
            x: sample_range(40_000, self.width - 40_000),
            y: sample_range(40_000, self.height - 40_000),
        };
        let spin: i64 = sample_range(0, TAU_MRAD);
        let ghost before = self.powerups@;
        self.powerups.push(PowerUp { pos, kind, spin });
        proof {
            assert(self.powerups@.subrange(0, before.len() as int) =~= before);
        }
    }

    pub fn toggle_pause(&mut self)
        requires
            old(self).wf(),
        ensures
            final(self).wf(),
            final(self).paused == !old(self).paused,
            *final(self) == (Game { paused: final(self).paused, ..*old(self) }),
    {
        self.paused = !self.paused;
    }

    /// Opens or closes the upgrade shop; the shop pauses the simulation.
    /// Over a finished round the shop stays closed.
    pub fn toggle_shop(&mut self)
        requires
            old(self).wf(),
        ensures
            final(self).wf(),
            old(self).over ==> *final(self) == *old(self),
            !old(self).over ==> {
                &&& final(self).shop_open == !old(self).shop_open
                &&& final(self).paused == final(self).shop_open
                &&& *final(self) == (Game {
                    shop_open: final(self).shop_open,
                    paused: final(self).paused,
                    ..*old(self)
                })
            },
    {
        if !self.over {
            self.shop_open = !self.shop_open;
            self.paused = self.shop_open;
        }
    }

    /// The dash key: fires the dash when the shop and the game-over
    /// overlay are closed and a charge is in hand, with a cosmetic burst
    /// and shake on success.
    pub fn dash_input(&mut self) -> (ok: bool)
        requires
            old(self).wf(),
        ensures
            final(self).wf(),
            ok == (!old(self).shop_open && !old(self).over && old(self).player.dashes_left > 0
                && old(self).player.dash_t <= 0),
            !ok ==> *final(self) == *old(self),
            ok ==> {
                &&& final(self).player.vel == crate::player::dash_vel_spec(old(self).player.vel)
                &&& final(self).player.dash_t == crate::upgrades::DASH_TIME_MS * (100 + 8 * old(
                    self,
                ).upgrades.dash_time) / 100
                &&& final(self).player.invuln == final(self).player.dash_t
                &&& final(self).player.dashes_left == old(self).player.dashes_left - 1
                &&& final(self).shake >= 10_000
                &&& final(self).particles@.len() == old(self).particles@.len() + 40
                &&& final(self).player.pos == old(self).player.pos
            },
    {
        if self.shop_open || self.over {
            return false;
        }
        let dtv: i64 = self.upgrades.dash_time_ms();
        let cdv: i64 = self.upgrades.dash_cd_ms();
        let ok: bool = self.player.try_dash(dtv, cdv);
        if ok {
            let p = self.player.pos;
            self.add_particles(p, 40, 400_000);
            if self.shake < 10_000 {
                self.shake = 10_000;
            }
        }
        ok
    }
}

/// The shop's price for category `idx` (1 to 5).
pub open spec fn cost_of(u: Upgrades, idx: u32) -> int {
    if idx == 1 {
        60 + 45 * u.speed
    } else if idx == 2 {
        80 + 50 * u.dash_cd
    } else if idx == 3 {
        80 + 50 * u.dash_time
    } else if idx == 4 {
        40 + 30 * u.shard_value
    } else {
        50 + 40 * u.magnet
    }
}

pub open spec fn level_of(u: Upgrades, idx: u32) -> int {
    if idx == 1 {
        u.speed as int
    } else if idx == 2 {
        u.dash_cd as int
    } else if idx == 3 {
        u.dash_time as int
    } else if idx == 4 {
        u.shard_value as int
    } else {
        u.magnet as int
    }
}

/// A purchase goes through exactly when the category exists, its level is
/// under the arithmetic cap, and the currency covers the price.
pub open spec fn buy_allowed(g: Game, idx: u32) -> bool {
    &&& 1 <= idx <= 5
    &&& level_of(g.upgrades, idx) < LEVEL_CAP
    &&& g.eco.currency >= cost_of(g.upgrades, idx)
}

pub open spec fn kind_of_idx(idx: u32) -> UpgradeKind {
    if idx == 1 {
        UpgradeKind::Speed
    } else if idx == 2 {
        UpgradeKind::DashCooldown
    } else if idx == 3 {
        UpgradeKind::DashDuration
    } else if idx == 4 {
        UpgradeKind::ShardValue
    } else {
        UpgradeKind::Magnet
    }
}

pub open spec fn bumped_level(u: Upgrades, idx: u32) -> Upgrades {
    if idx == 1 {
        Upgrades { speed: (u.speed + 1) as u32, ..u }
    } else if idx == 2 {
        Upgrades { dash_cd: (u.dash_cd + 1) as u32, ..u }
    } else if idx == 3 {
        Upgrades { dash_time: (u.dash_time + 1) as u32, ..u }
    } else if idx == 4 {
        Upgrades { shard_value: (u.shard_value + 1) as u32, ..u }
    } else {
        Upgrades { magnet: (u.magnet + 1) as u32, ..u }
    }
}

/// Inside the near-miss ring: closer than the ring bound but not
/// overlapping the avatar's own radius.
pub open spec fn in_near_ring(e: Enemy, p: Player) -> bool {
    let d2 = dist_sq_spec(p.pos, e.pos);
    d2 > p.r * p.r && d2 < NEAR_MISS_DIST * NEAR_MISS_DIST
}

/// How many enemies sit in the near-miss ring.
pub open spec fn ring_count(s: Seq<Enemy>, p: Player) -> int
    decreases s.len(),
{
    if s.len() == 0 {
        0
    } else {
        ring_count(s.drop_last(), p) + (if in_near_ring(s.last(), p) {
            1int
        } else {
            0int
        })
    }
}

/// One near-miss pass: `k` independent per-enemy rolls came up, each
/// paying a flat +3 score and +1 currency and floating one label; `k`
/// never exceeds the enemies in the ring, and a shielded player draws no
/// rolls at all.  The combo and everything else stand untouched.
pub open spec fn near_miss_rel(pre: Game, post: Game, k: int) -> bool {
    &&& 0 <= k <= ring_count(pre.enemies@, pre.player)
    &&& (pre.player.invuln > 0 ==> k == 0)
    &&& post.eco == (Economy {
        score: capped(pre.eco.score + NEAR_MISS_BONUS * k, SCORE_CAP as int) as i64,
        currency: capped(pre.eco.currency + k, CURRENCY_CAP as int) as i64,
        ..pre.eco
    })
    &&& post.textfx@.len() == pre.textfx@.len() + k
    &&& post.textfx@.subrange(0, pre.textfx@.len() as int) == pre.textfx@
    &&& (forall|j: int|
        pre.textfx@.len() <= j < post.textfx@.len() ==> (#[trigger] post.textfx@[j]).label
            == Label::NearMiss)
    &&& post == (Game { eco: post.eco, textfx: post.textfx, ..pre })
}

impl Game {
    /// Tries to buy one level of category `idx` (1 to 5): on success the
    /// price is debited, the level rises by one, and a label floats up.
    /// Anything else — unknown category, thin funds — is a no-op.
    pub fn try_buy(&mut self, idx: u32) -> (ok: bool)
        requires
            old(self).wf(),
        ensures
            final(self).wf(),
            ok == buy_allowed(*old(self), idx),
            !ok ==> *final(self) == *old(self),
            ok ==> {
                &&& final(self).eco.currency == old(self).eco.currency - cost_of(
                    old(self).upgrades,
                    idx,
                )
                &&& final(self).eco == (Economy {
                    currency: final(self).eco.currency,
                    ..old(self).eco
                })
                &&& final(self).upgrades == bumped_level(old(self).upgrades, idx)
                &&& final(self).textfx@.len() == old(self).textfx@.len() + 1
                &&& final(self).textfx@.subrange(0, old(self).textfx@.len() as int) == old(
                    self,
                ).textfx@
                &&& final(self).textfx@.last().label == Label::Purchase(kind_of_idx(idx))
                &&& *final(self) == (Game {
                    eco: final(self).eco,
                    upgrades: final(self).upgrades,
                    textfx: final(self).textfx,
                    ..*old(self)
                })
            },
    {
        if idx < 1 || idx > 5 {
            return false;
        }
        let (cost, lvl): (i64, u32) = if idx == 1 {
            (self.upgrades.cost_speed(), self.upgrades.speed)
        } else if idx == 2 {
            (self.upgrades.cost_dash_cd(), self.upgrades.dash_cd)
        } else if idx == 3 {
            (self.upgrades.cost_dash_time(), self.upgrades.dash_time)
        } else if idx == 4 {
            (self.upgrades.cost_shard_value(), self.upgrades.shard_value)
        } else {
            (self.upgrades.cost_magnet(), self.upgrades.magnet)
        };
        if lvl >= LEVEL_CAP {
            return false;
        }
        if self.eco.currency < cost {
            return false;
        }
        self.eco.currency = self.eco.currency - cost;
        if idx == 1 {
            self.upgrades.speed = lvl + 1;
        } else if idx == 2 {
            self.upgrades.dash_cd = lvl + 1;
        } else if idx == 3 {
            self.upgrades.dash_time = lvl + 1;
        } else if idx == 4 {
            self.upgrades.shard_value = lvl + 1;
        } else {
            self.upgrades.magnet = lvl + 1;
        }
        let kind: UpgradeKind = if idx == 1 {
            UpgradeKind::Speed
        } else if idx == 2 {
            UpgradeKind::DashCooldown
        } else if idx == 3 {
            UpgradeKind::DashDuration
        } else if idx == 4 {
            UpgradeKind::ShardValue
        } else {
            UpgradeKind::Magnet
        };
        let ghost before = self.textfx@;
        self.textfx.push(
            TextFx {
                pos: self.player.pos,
                vel: Vec2 { x: 0, y: -40_000 },
                life: 900,
                label: Label::Purchase(kind),
            },
        );
        proof {
            assert(self.textfx@.subrange(0, before.len() as int) =~= before);
        }
        true
    }

    /// Near-miss sampling: every enemy hovering close to a vulnerable
    /// player — nearer than the near-miss ring but not touching — gets an
    /// independent small chance to pay a flat bonus.  The combo is not
    /// involved.  Returns how many awards the tick's rolls granted.
    fn near_miss_tick(&mut self) -> (events: Ghost<int>)
        requires
            old(self).wf(),
        ensures
            final(self).wf(),
            near_miss_rel(*old(self), *final(self), events@),
    {
        let ppos: Vec2 = self.player.pos;
        let pr: i64 = self.player.r;
        let vulnerable: bool = self.player.invuln <= 0;
        let ghost mut k: int = 0;
        let mut i: usize = 0;
        while i < self.enemies.len()
            invariant
                i <= self.enemies.len(),
                old(self).wf(),
                ppos == old(self).player.pos,
                pr == old(self).player.r,
                vulnerable == (old(self).player.invuln <= 0),
                self.eco.wf(),
                0 <= k <= ring_count(old(self).enemies@.subrange(0, i as int), old(self).player),
                ring_count(old(self).enemies@.subrange(0, i as int), old(self).player) <= i,
                !vulnerable ==> k == 0,
                self.eco == (Economy {
                    score: capped(old(self).eco.score + NEAR_MISS_BONUS * k, SCORE_CAP as int) as i64,
                    currency: capped(old(self).eco.currency + k, CURRENCY_CAP as int) as i64,
                    ..old(self).eco
                }),
                self.textfx@.len() == old(self).textfx@.len() + k,
                self.textfx@.subrange(0, old(self).textfx@.len() as int) == old(self).textfx@,
                forall|j: int|
                    old(self).textfx@.len() <= j < self.textfx@.len() ==> (
                    #[trigger] self.textfx@[j]).label == Label::NearMiss,
                forall|j: int| 0 <= j < self.textfx@.len() ==> (#[trigger] self.textfx@[j]).wf(),
                *self == (Game { eco: self.eco, textfx: self.textfx, ..*old(self) }),
            decreases self.enemies.len() - i,
        {
            let e: Enemy = self.enemies[i];
            proof {
                assert(old(self).enemies[i as int].wf());
                assert(old(self).enemies@.subrange(0, i + 1).drop_last() =~= old(
                    self,
                ).enemies@.subrange(0, i as int));
                assert(old(self).enemies@.subrange(0, i + 1).last() == old(self).enemies@[i as int]);
            }
            let d2: i64 = dist_sq(&ppos, &e.pos);
            if vulnerable && d2 > pr * pr && d2 < NEAR_MISS_DIST * NEAR_MISS_DIST {
                if sample_range(0, 1_000_000) < 20_000 {
                    self.eco.award_flat(NEAR_MISS_BONUS, 1);
                    let ghost before = self.textfx@;
                    self.textfx.push(
                        TextFx {
                            pos: e.pos,
                            vel: Vec2 { x: 0, y: -40_000 },
                            life: 800,
                            label: Label::NearMiss,
                        },
                    );
                    proof {
                        assert(self.textfx@.subrange(0, old(self).textfx@.len() as int)
                            =~= before.subrange(0, old(self).textfx@.len() as int));
                        k = k + 1;
                    }
                }
            }
            i = i + 1;
        }
        proof {
            assert(old(self).enemies@.subrange(0, old(self).enemies@.len() as int) =~= old(
                self,
            ).enemies@);
        }
        Ghost(k)
    }
}

/// One steering pass: every enemy takes exactly one steering step
/// against the player's position; nothing else moves.
pub open spec fn steer_rel(pre: Game, post: Game, dt: int) -> bool {
    &&& post.enemies@.len() == pre.enemies@.len()
    &&& (forall|k: int|
        0 <= k < pre.enemies@.len() ==> #[trigger] post.enemies@[k]
            == crate::entities::enemy_stepped(
            pre.enemies@[k],
            pre.player.pos,
            pre.t_ms as int,
            pre.width as int,
            pre.height as int,
            dt,
        ))
    &&& post == (Game { enemies: post.enemies, ..pre })
}

/// One shooter pass: shooters run their fire cooldown and, when it
/// lapses, fire one hostile bullet at the player and re-arm; everyone's
/// position, kind and angle stand; other kinds are untouched.
pub open spec fn shooter_rel(pre: Game, post: Game) -> bool {
    &&& post.enemies@.len() == pre.enemies@.len()
    &&& (forall|k: int|
        0 <= k < pre.enemies@.len() ==> {
            &&& (#[trigger] post.enemies@[k]).pos == pre.enemies@[k].pos
            &&& post.enemies@[k].kind == pre.enemies@[k].kind
            &&& post.enemies@[k].angle == pre.enemies@[k].angle
        })
    &&& (forall|k: int|
        0 <= k < pre.enemies@.len() && pre.enemies@[k].kind != KIND_SHOOTER
            ==> #[trigger] post.enemies@[k] == pre.enemies@[k])
    &&& post.bullets@.len() >= pre.bullets@.len()
    &&& post.bullets@.subrange(0, pre.bullets@.len() as int) == pre.bullets@
    &&& (forall|k: int|
        pre.bullets@.len() <= k < post.bullets@.len() ==> (#[trigger] post.bullets@[k]).hostile)
    &&& post == (Game { enemies: post.enemies, bullets: post.bullets, ..pre })
}

impl Game {
    /// Runs every enemy's steering tick against the player's position.
    fn steer_tick(&mut self, dt: i64)
        requires
            old(self).wf(),
            0 < dt <= 1000,
        ensures
            final(self).wf(),
            steer_rel(*old(self), *final(self), dt as int),
    {
        let ppos: Vec2 = self.player.pos;
        let t: i64 = self.t_ms;
        let w: i64 = self.width;
        let h: i64 = self.height;
        let mut i: usize = 0;
        while i < self.enemies.len()
            invariant
                i <= self.enemies.len(),
                old(self).wf(),
                self.enemies@.len() == old(self).enemies@.len(),
                ppos == old(self).player.pos,
                t == old(self).t_ms,
                w == old(self).width,
                h == old(self).height,
                0 < dt <= 1000,
                forall|k: int|
                    0 <= k < i ==> #[trigger] self.enemies@[k] == crate::entities::enemy_stepped(
                        old(self).enemies@[k],
                        old(self).player.pos,
                        old(self).t_ms as int,
                        old(self).width as int,
                        old(self).height as int,
                        dt as int,
                    ),
                forall|k: int|
                    i <= k < self.enemies@.len() ==> #[trigger] self.enemies@[k] == old(
                        self,
                    ).enemies@[k],
                forall|k: int| 0 <= k < self.enemies@.len() ==> (#[trigger] self.enemies@[k]).wf(),
                *self == (Game { enemies: self.enemies, ..*old(self) }),
            decreases self.enemies.len() - i,
        {
            let mut e: Enemy = self.enemies[i];
            e.update(dt, ppos, t, w, h);
            self.enemies.set(i, e);
            i = i + 1;
        }
    }

    /// Shooters run their fire cooldown and, when it lapses, fire one
    /// hostile bullet at the player and re-arm with a drawn cooldown.
    fn shooter_tick(&mut self, dt: i64)
        requires
            old(self).wf(),
            0 < dt <= 1000,
        ensures
            final(self).wf(),
            shooter_rel(*old(self), *final(self)),
    {
        let ppos: Vec2 = self.player.pos;
        let mut i: usize = 0;
        while i < self.enemies.len()
            invariant
                i <= self.enemies.len(),
                old(self).wf(),
                self.enemies@.len() == old(self).enemies@.len(),
                ppos == old(self).player.pos,
                0 < dt <= 1000,
                forall|k: int|
                    0 <= k < self.enemies@.len() ==> {
                        &&& (#[trigger] self.enemies@[k]).pos == old(self).enemies@[k].pos
                        &&& self.enemies@[k].kind == old(self).enemies@[k].kind
                        &&& self.enemies@[k].angle == old(self).enemies@[k].angle
                    },
                forall|k: int|
                    0 <= k < self.enemies@.len() && old(self).enemies@[k].kind != KIND_SHOOTER
                        ==> #[trigger] self.enemies@[k] == old(self).enemies@[k],
                forall|k: int| 0 <= k < self.enemies@.len() ==> (#[trigger] self.enemies@[k]).wf(),
                self.bullets@.len() >= old(self).bullets@.len(),
                self.bullets@.subrange(0, old(self).bullets@.len() as int) == old(self).bullets@,
                forall|k: int|
                    old(self).bullets@.len() <= k < self.bullets@.len() ==> (
                    #[trigger] self.bullets@[k]).hostile,
                forall|k: int| 0 <= k < self.bullets@.len() ==> (#[trigger] self.bullets@[k]).wf(),
                *self == (Game { enemies: self.enemies, bullets: self.bullets, ..*old(self) }),
            decreases self.enemies.len() - i,
        {
            let mut e: Enemy = self.enemies[i];
            if e.kind == KIND_SHOOTER {
                let nc: i64 = e.cool - dt;
                if nc <= 0 {
                    let dxv: i64 = ppos.x - e.pos.x;
                    let dyv: i64 = ppos.y - e.pos.y;
                    let dir: Vec2 = if dxv == 0 && dyv == 0 {
                        Vec2 { x: 0, y: 0 }
                    } else {
                        unit_scaled(dxv, dyv)
                    };
                    let ghost bb = self.bullets@;
                    self.bullets.push(
                        Bullet {
                            pos: e.pos,
                            vel: Vec2 { x: dir.x * 360, y: dir.y * 360 },
                            r: 5_000,
                            hostile: true,
                            life: 5000,
                        },
                    );
                    proof {
                        assert(self.bullets@.subrange(0, old(self).bullets@.len() as int)
                            =~= bb.subrange(0, old(self).bullets@.len() as int));
                    }
                    e.cool = sample_range(900, 1600);
                } else {
                    e.cool = nc;
                }
                self.enemies.set(i, e);
            }
            i = i + 1;
        }
    }
}

/// Whether the enemy touches the avatar: centre distance within the sum
/// of the radii, compared on squares.
pub open spec fn enemy_touches(e: Enemy, p: Player) -> bool {
    dist_sq_spec(p.pos, e.pos) <= (p.r + crate::entities::enemy_radius_spec(e.kind)) * (p.r
        + crate::entities::enemy_radius_spec(e.kind))
}

/// The enemies left after contact resolution: touching ones go, order of
/// the rest is kept.
pub open spec fn surviving_enemies(s: Seq<Enemy>, p: Player) -> Seq<Enemy>
    decreases s.len(),
{
    if s.len() == 0 {
        Seq::empty()
    } else {
        let rest = surviving_enemies(s.drop_last(), p);
        if enemy_touches(s.last(), p) {
            rest
        } else {
            rest.push(s.last())
        }
    }
}

/// How many enemies touch the avatar.
pub open spec fn contact_count(s: Seq<Enemy>, p: Player) -> int
    decreases s.len(),
{
    if s.len() == 0 {
        0
    } else {
        contact_count(s.drop_last(), p) + (if enemy_touches(s.last(), p) {
            1int
        } else {
            0int
        })
    }
}

/// One enemy-contact pass: touching enemies leave the pool either way;
/// while invulnerable each one converts to +10 score and +2 currency
/// through the combo (and may drop a shard); otherwise any contact ends
/// the round once, after the scan.
pub open spec fn enemy_contact_rel(pre: Game, post: Game) -> bool {
    &&& post.enemies@ == surviving_enemies(pre.enemies@, pre.player)
    &&& 0 <= contact_count(pre.enemies@, pre.player) <= pre.enemies@.len()
    &&& post.player == pre.player
    &&& (pre.player.invuln > 0 ==> {
        &&& post.eco.score == capped(
            pre.eco.score + 10 * contact_count(pre.enemies@, pre.player),
            SCORE_CAP as int,
        )
        &&& post.eco.combo == capped(
            pre.eco.combo + contact_count(pre.enemies@, pre.player),
            COMBO_CAP as int,
        )
        &&& post.eco.combo_t == (if contact_count(pre.enemies@, pre.player) > 0 {
            COMBO_TIME_MS as int
        } else {
            pre.eco.combo_t as int
        })
        &&& post.eco.currency == capped(
            pre.eco.currency + 2 * contact_count(pre.enemies@, pre.player),
            CURRENCY_CAP as int,
        )
        &&& post.eco.best == pre.eco.best
        &&& post.over == pre.over
        &&& post.shards@.len() >= pre.shards@.len()
        &&& post.shards@.subrange(0, pre.shards@.len() as int) == pre.shards@
        &&& post == (Game {
            enemies: post.enemies,
            eco: post.eco,
            shards: post.shards,
            particles: post.particles,
            ..pre
        })
    })
    &&& (pre.player.invuln <= 0 ==> {
        &&& post.shards@ == pre.shards@
        &&& post.eco == (Economy { best: post.eco.best, ..pre.eco })
        &&& (contact_count(pre.enemies@, pre.player) > 0 ==> {
            &&& post.over
            &&& !post.shop_open && !post.paused
            &&& post.shake == 20_000
            &&& post.eco.best == (if pre.eco.score > pre.eco.best {
                pre.eco.score
            } else {
                pre.eco.best
            })
        })
        &&& (contact_count(pre.enemies@, pre.player) == 0 ==> {
            &&& post.eco == pre.eco
            &&& post.over == pre.over
            &&& post.paused == pre.paused
            &&& post.shop_open == pre.shop_open
            &&& post.shake == pre.shake
        })
        &&& post == (Game {
            enemies: post.enemies,
            eco: post.eco,
            over: post.over,
            shake: post.shake,
            paused: post.paused,
            shop_open: post.shop_open,
            particles: post.particles,
            shards: post.shards,
            ..pre
        })
    })
}

impl Game {
    /// Contact resolution against the enemies.  Touching enemies are
    /// removed either way; while invulnerable each one converts to a
    /// reward (and may drop a shard), otherwise any contact ends the round
    /// once the scan completes.
    fn enemy_contact_tick(&mut self)
        requires
            old(self).wf(),
        ensures
            final(self).wf(),
            enemy_contact_rel(*old(self), *final(self)),
    {
        let ppos: Vec2 = self.player.pos;
        let pr: i64 = self.player.r;
        let invuln: bool = self.player.invuln > 0;
        let mut kept: Vec<Enemy> = Vec::new();
        let mut hit: bool = false;
        let mut i: usize = 0;
        while i < self.enemies.len()
            invariant
                i <= self.enemies.len(),
                old(self).wf(),
                self.wf(),
                ppos == old(self).player.pos,
                pr == old(self).player.r,
                invuln == (old(self).player.invuln > 0),
                self.enemies@ == old(self).enemies@,
                kept@ == surviving_enemies(
                    old(self).enemies@.subrange(0, i as int),
                    old(self).player,
                ),
                0 <= contact_count(old(self).enemies@.subrange(0, i as int), old(self).player)
                    <= i,
                forall|k: int| 0 <= k < kept@.len() ==> (#[trigger] kept@[k]).wf(),
                self.eco.wf(),
                invuln ==> {
                    &&& self.eco.score == capped(
                        old(self).eco.score + 10 * contact_count(
                            old(self).enemies@.subrange(0, i as int),
                            old(self).player,
                        ),
                        SCORE_CAP as int,
                    )
                    &&& self.eco.combo == capped(
                        old(self).eco.combo + contact_count(
                            old(self).enemies@.subrange(0, i as int),
                            old(self).player,
                        ),
                        COMBO_CAP as int,
                    )
                    &&& self.eco.combo_t == (if contact_count(
                        old(self).enemies@.subrange(0, i as int),
                        old(self).player,
                    ) > 0 {
                        COMBO_TIME_MS as int
                    } else {
                        old(self).eco.combo_t as int
                    })
                    &&& self.eco.currency == capped(
                        old(self).eco.currency + 2 * contact_count(
                            old(self).enemies@.subrange(0, i as int),
                            old(self).player,
                        ),
                        CURRENCY_CAP as int,
                    )
                    &&& self.eco.best == old(self).eco.best
                    &&& !hit
                },
                !invuln ==> {
                    &&& self.eco == old(self).eco
                    &&& self.shards@ == old(self).shards@
                    &&& hit == (contact_count(
                        old(self).enemies@.subrange(0, i as int),
                        old(self).player,
                    ) > 0)
                },
                self.shards@.len() >= old(self).shards@.len(),
                self.shards@.subrange(0, old(self).shards@.len() as int) == old(self).shards@,
                forall|k: int| 0 <= k < self.shards@.len() ==> (#[trigger] self.shards@[k]).wf(),
                *self == (Game {
                    eco: self.eco,
                    shards: self.shards,
                    particles: self.particles,
                    ..*old(self)
                }),
            decreases self.enemies.len() - i,
        {
            let e: Enemy = self.enemies[i];
            proof {
                assert(old(self).enemies[i as int].wf());
                assert(old(self).enemies@.subrange(0, i + 1).drop_last() =~= old(
                    self,
                ).enemies@.subrange(0, i as int));
                assert(old(self).enemies@.subrange(0, i + 1).last() == old(self).enemies@[i as int]);
            }
            let d2: i64 = dist_sq(&ppos, &e.pos);
            let er: i64 = e.radius();
            let reach: i64 = pr + er;
            proof {
                assert(0 <= reach * reach <= 729_000_000int) by (nonlinear_arith)
                    requires 0 <= reach <= 27_000int;
            }
            if d2 <= reach * reach {
                if invuln {
                    self.add_particles(e.pos, 32, 360_000);
                    self.eco.bump_score(10);
                    self.eco.add_currency(2);
                    if sample_range(0, 1_000_000) < 500_000 {
                        let phase: i64 = sample_range(0, TAU_MRAD);
                        let ghost sb = self.shards@;
                        self.shards.push(Shard::new(e.pos, phase));
                        proof {
                            assert(self.shards@.subrange(0, old(self).shards@.len() as int)
                                =~= sb.subrange(0, old(self).shards@.len() as int));
                        }
                    }
                } else {
                    hit = true;
                }
            } else {
                kept.push(e);
            }
            proof {
                assert(contact_count(old(self).enemies@.subrange(0, i + 1), old(self).player)
                    == contact_count(old(self).enemies@.subrange(0, i as int), old(self).player)
                    + (if d2 <= reach * reach {
                    1int
                } else {
                    0int
                }));
            }
            i = i + 1;
        }
        proof {
            assert(old(self).enemies@.subrange(0, old(self).enemies@.len() as int) =~= old(
                self,
            ).enemies@);
        }
        self.enemies = kept;
        if hit {
            self.game_over();
        }
    }
}

/// Whether the shard sits within pickup range of the avatar.
pub open spec fn shard_touches(s: Shard, p: Player) -> bool {
    dist_sq_spec(p.pos, s.pos) <= (p.r + SHARD_RADIUS) * (p.r + SHARD_RADIUS)
}

/// Magnet pull speed under the ledger and the buff.
pub open spec fn magnet_pull_spec(u: Upgrades, boosted: bool) -> int {
    120_000 + 50_000 * u.magnet + (if boosted {
        MAGNET_BOOST_SPEED as int
    } else {
        0int
    })
}

pub open spec fn magnet_radius_spec(boosted: bool) -> int {
    if boosted {
        MAGNET_RADIUS_BOOSTED as int
    } else {
        MAGNET_RADIUS as int
    }
}

/// A kept shard after one tick: inside the magnet ring it drifts toward
/// the avatar at the pull speed, otherwise it stays put.
pub open spec fn shard_moved(s: Shard, p: Player, pull: int, rad: int, dt: int) -> Shard {
    let dx = p.pos.x - s.pos.x;
    let dy = p.pos.y - s.pos.y;
    let d2 = dist_sq_spec(p.pos, s.pos);
    if d2 < rad * rad && d2 > 0 {
        Shard {
            pos: Vec2 {
                x: clamp_spec(
                    s.pos.x + qdiv(unit_comp_spec(dx, dx, dy) * (pull * dt), 1_000_000),
                    -COORD_LIMIT as int,
                    COORD_LIMIT as int,
                ) as i64,
                y: clamp_spec(
                    s.pos.y + qdiv(unit_comp_spec(dy, dx, dy) * (pull * dt), 1_000_000),
                    -COORD_LIMIT as int,
                    COORD_LIMIT as int,
                ) as i64,
            },
            phase: s.phase,
        }
    } else {
        s
    }
}

/// The shards left after one tick: picked-up ones go, the rest drift.
pub open spec fn shards_after(s: Seq<Shard>, p: Player, pull: int, rad: int, dt: int) -> Seq<
    Shard,
>
    decreases s.len(),
{
    if s.len() == 0 {
        Seq::empty()
    } else {
        let rest = shards_after(s.drop_last(), p, pull, rad, dt);
        if shard_touches(s.last(), p) {
            rest
        } else {
            rest.push(shard_moved(s.last(), p, pull, rad, dt))
        }
    }
}

/// What one shard pickup does to the economy: the score bump scales with
/// the multiplier standing at that moment, the combo steps up and re-arms,
/// the currency gains the base plus the ledger bonus.
pub open spec fn shard_reward(e: Economy, cbonus: int) -> Economy {
    Economy {
        score: capped(e.score + (50 + 5 * e.combo) / 10, SCORE_CAP as int) as i64,
        combo: capped(e.combo + crate::economy::COMBO_INC_TENTHS, COMBO_CAP as int) as i64,
        combo_t: COMBO_TIME_MS,
        currency: capped(e.currency + 3 + cbonus, CURRENCY_CAP as int) as i64,
        best: e.best,
    }
}

/// The economy after the tick's pickups, resolved left to right.
pub open spec fn shards_eco(s: Seq<Shard>, e: Economy, p: Player, cbonus: int) -> Economy
    decreases s.len(),
{
    if s.len() == 0 {
        e
    } else {
        let e1 = shards_eco(s.drop_last(), e, p, cbonus);
        if shard_touches(s.last(), p) {
            shard_reward(e1, cbonus)
        } else {
            e1
        }
    }
}

/// One shard pass: picked-up shards pay through the combo left to right
/// (`shards_eco`), the rest drift or stand (`shards_after`); one label
/// floats per pickup.
pub open spec fn shard_pass_rel(pre: Game, post: Game, dt: int) -> bool {
    &&& post.shards@ == shards_after(
        pre.shards@,
        pre.player,
        magnet_pull_spec(pre.upgrades, pre.power_magnet > 0),
        magnet_radius_spec(pre.power_magnet > 0),
        dt,
    )
    &&& post.eco == shards_eco(pre.shards@, pre.eco, pre.player, 2 * pre.upgrades.shard_value)
    &&& post.eco.best == pre.eco.best
    &&& post.textfx@.len() >= pre.textfx@.len()
    &&& post.textfx@.subrange(0, pre.textfx@.len() as int) == pre.textfx@
    &&& post == (Game {
        shards: post.shards,
        eco: post.eco,
        textfx: post.textfx,
        particles: post.particles,
        ..pre
    })
}

impl Game {
    /// Shard pickup and magnet attraction: shards in pickup range convert
    /// to score and currency through the combo, shards in the magnet ring
    /// drift toward the avatar, the rest stay put.
    fn shard_tick(&mut self, dt: i64)
        requires
            old(self).wf(),
            0 < dt <= 1000,
        ensures
            final(self).wf(),
            shard_pass_rel(*old(self), *final(self), dt as int),
    {
        let ppos: Vec2 = self.player.pos;
        let pr: i64 = self.player.r;
        let boosted: bool = self.power_magnet > 0;
        let pull: i64 = self.upgrades.magnet_speed() + (if boosted {
            MAGNET_BOOST_SPEED
        } else {
            0
        });
        let rad: i64 = if boosted {
            MAGNET_RADIUS_BOOSTED
        } else {
            MAGNET_RADIUS
        };
        let cbonus: i64 = self.upgrades.shard_currency_bonus();
        let ghost pull_g = magnet_pull_spec(old(self).upgrades, old(self).power_magnet > 0);
        let ghost rad_g = magnet_radius_spec(old(self).power_magnet > 0);
        let mut kept: Vec<Shard> = Vec::new();
        let mut i: usize = 0;
        while i < self.shards.len()
            invariant
                i <= self.shards.len(),
                old(self).wf(),
                self.wf(),
                ppos == old(self).player.pos,
                pr == old(self).player.r,
                pull == pull_g,
                rad == rad_g,
                pull_g == magnet_pull_spec(old(self).upgrades, old(self).power_magnet > 0),
                rad_g == magnet_radius_spec(old(self).power_magnet > 0),
                0 < pull <= 800_000_000,
                rad == 180_000 || rad == 260_000,
                cbonus == 2 * old(self).upgrades.shard_value,
                0 <= cbonus <= 20_000,
                0 < dt <= 1000,
                self.shards@ == old(self).shards@,
                kept@ == shards_after(
                    old(self).shards@.subrange(0, i as int),
                    old(self).player,
                    pull_g,
                    rad_g,
                    dt as int,
                ),
                forall|k: int| 0 <= k < kept@.len() ==> (#[trigger] kept@[k]).wf(),
                self.eco == shards_eco(
                    old(self).shards@.subrange(0, i as int),
                    old(self).eco,
                    old(self).player,
                    2 * old(self).upgrades.shard_value,
                ),
                self.eco.best == old(self).eco.best,
                self.textfx@.len() >= old(self).textfx@.len(),
                self.textfx@.subrange(0, old(self).textfx@.len() as int) == old(self).textfx@,
                *self == (Game {
                    eco: self.eco,
                    textfx: self.textfx,
                    particles: self.particles,
                    ..*old(self)
                }),
            decreases self.shards.len() - i,
        {
            let s: Shard = self.shards[i];
            proof {
                assert(old(self).shards[i as int].wf());
                assert(old(self).shards@.subrange(0, i + 1).drop_last() =~= old(
                    self,
                ).shards@.subrange(0, i as int));
                assert(old(self).shards@.subrange(0, i + 1).last() == old(self).shards@[i as int]);
            }
            let d2: i64 = dist_sq(&ppos, &s.pos);
            let reach: i64 = pr + SHARD_RADIUS;
            if d2 <= reach * reach {
                let bonus: i64 = self.eco.shard_bonus();
                self.eco.bump_score(bonus);
                self.eco.add_currency(3 + cbonus);
                let ghost tb = self.textfx@;
                self.textfx.push(
                    TextFx {
                        pos: s.pos,
                        vel: Vec2 { x: 0, y: -40_000 },
                        life: 800,
                        label: Label::ShardBonus(bonus),
                    },
                );
                proof {
                    assert(self.textfx@.subrange(0, old(self).textfx@.len() as int) =~= tb
                        .subrange(0, old(self).textfx@.len() as int));
                }
                self.add_particles(s.pos, 22, 280_000);
            } else {
                let dxv: i64 = ppos.x - s.pos.x;
                let dyv: i64 = ppos.y - s.pos.y;
                proof {
                    assert(0 <= rad * rad <= 67_600_000_000int) by (nonlinear_arith)
                        requires rad == 180_000 || rad == 260_000int;
                }
                if d2 < rad * rad && d2 > 0 {
                    let u: Vec2 = unit_scaled(dxv, dyv);
                    proof {
                        assert(0 <= pull * dt <= 800_000_000_000int) by (nonlinear_arith)
                            requires 0 < pull <= 800_000_000int, 0 < dt <= 1000;
                        assert(-800_000_000_000_000 <= u.x * (pull * dt) <= 800_000_000_000_000int)
                            by (nonlinear_arith)
                            requires -1000 <= u.x <= 1000, 0 <= pull * dt <= 800_000_000_000int;
                        assert(-800_000_000_000_000 <= u.y * (pull * dt) <= 800_000_000_000_000int)
                            by (nonlinear_arith)
                            requires -1000 <= u.y <= 1000, 0 <= pull * dt <= 800_000_000_000int;
                    }
                    let m: i64 = pull * dt;
                    let sx: i64 = mul_div(u.x, m, 1_000_000);
                    let sy: i64 = mul_div(u.y, m, 1_000_000);
                    kept.push(
                        Shard {
                            pos: Vec2 {
                                x: sat_coord(s.pos.x + sx),
                                y: sat_coord(s.pos.y + sy),
                            },
                            phase: s.phase,
                        },
                    );
                } else {
                    kept.push(s);
                }
            }
            i = i + 1;
        }
        proof {
            assert(old(self).shards@.subrange(0, old(self).shards@.len() as int) =~= old(
                self,
            ).shards@);
        }
        self.shards = kept;
    }
}

/// Whether the power-up sits within pickup range of the avatar.
pub open spec fn powerup_touches(pu: PowerUp, p: Player) -> bool {
    dist_sq_spec(p.pos, pu.pos) <= (p.r + POWERUP_RADIUS) * (p.r + POWERUP_RADIUS)
}

/// The power-ups left after pickup resolution.
pub open spec fn powerups_after(s: Seq<PowerUp>, p: Player) -> Seq<PowerUp>
    decreases s.len(),
{
    if s.len() == 0 {
        Seq::empty()
    } else {
        let rest = powerups_after(s.drop_last(), p);
        if powerup_touches(s.last(), p) {
            rest
        } else {
            rest.push(s.last())
        }
    }
}

/// Whether some power-up of the given kind is picked up this tick.
pub open spec fn picked_kind(s: Seq<PowerUp>, p: Player, k: PowerKind) -> bool
    decreases s.len(),
{
    if s.len() == 0 {
        false
    } else {
        picked_kind(s.drop_last(), p, k) || (powerup_touches(s.last(), p) && s.last().kind == k)
    }
}

/// One power-up pass: touched power-ups are consumed and each refreshes
/// its buff window to the fixed duration.
pub open spec fn powerup_pass_rel(pre: Game, post: Game) -> bool {
    &&& post.powerups@ == powerups_after(pre.powerups@, pre.player)
    &&& post.power_invuln == (if picked_kind(pre.powerups@, pre.player, PowerKind::Invuln) {
        BUFF_INVULN_MS as int
    } else {
        pre.power_invuln as int
    })
    &&& post.power_magnet == (if picked_kind(pre.powerups@, pre.player, PowerKind::Magnet) {
        BUFF_MAGNET_MS as int
    } else {
        pre.power_magnet as int
    })
    &&& post.power_ddash == (if picked_kind(pre.powerups@, pre.player, PowerKind::DoubleDash) {
        BUFF_DDASH_MS as int
    } else {
        pre.power_ddash as int
    })
    &&& post.textfx@.len() >= pre.textfx@.len()
    &&& post.textfx@.subrange(0, pre.textfx@.len() as int) == pre.textfx@
    &&& post == (Game {
        powerups: post.powerups,
        power_invuln: post.power_invuln,
        power_magnet: post.power_magnet,
        power_ddash: post.power_ddash,
        textfx: post.textfx,
        particles: post.particles,
        ..pre
    })
}

impl Game {
    /// Power-up pickup: a touched power-up is consumed and sets its buff
    /// window to the fixed duration — a refresh, not an addition.
    fn powerup_tick(&mut self)
        requires
            old(self).wf(),
        ensures
            final(self).wf(),
            powerup_pass_rel(*old(self), *final(self)),
    {
        let ppos: Vec2 = self.player.pos;
        let pr: i64 = self.player.r;
        let mut kept: Vec<PowerUp> = Vec::new();
        let mut i: usize = 0;
        while i < self.powerups.len()
            invariant
                i <= self.powerups.len(),
                old(self).wf(),
                self.wf(),
                ppos == old(self).player.pos,
                pr == old(self).player.r,
                self.powerups@ == old(self).powerups@,
                kept@ == powerups_after(
                    old(self).powerups@.subrange(0, i as int),
                    old(self).player,
                ),
                forall|k: int| 0 <= k < kept@.len() ==> (#[trigger] kept@[k]).wf(),
                self.power_invuln == (if picked_kind(
                    old(self).powerups@.subrange(0, i as int),
                    old(self).player,
                    PowerKind::Invuln,
                ) {
                    BUFF_INVULN_MS as int
                } else {
                    old(self).power_invuln as int
                }),
                self.power_magnet == (if picked_kind(
                    old(self).powerups@.subrange(0, i as int),
                    old(self).player,
                    PowerKind::Magnet,
                ) {
                    BUFF_MAGNET_MS as int
                } else {
                    old(self).power_magnet as int
                }),
                self.power_ddash == (if picked_kind(
                    old(self).powerups@.subrange(0, i as int),
                    old(self).player,
                    PowerKind::DoubleDash,
                ) {
                    BUFF_DDASH_MS as int
                } else {
                    old(self).power_ddash as int
                }),
                self.textfx@.len() >= old(self).textfx@.len(),
                self.textfx@.subrange(0, old(self).textfx@.len() as int) == old(self).textfx@,
                *self == (Game {
                    power_invuln: self.power_invuln,
                    power_magnet: self.power_magnet,
                    power_ddash: self.power_ddash,
                    textfx: self.textfx,
                    particles: self.particles,
                    ..*old(self)
                }),
            decreases self.powerups.len() - i,
        {
            let pu: PowerUp = self.powerups[i];
            proof {
                assert(old(self).powerups[i as int].wf());
                assert(old(self).powerups@.subrange(0, i + 1).drop_last() =~= old(
                    self,
                ).powerups@.subrange(0, i as int));
                assert(old(self).powerups@.subrange(0, i + 1).last() == old(self).powerups@[i as int]);
            }
            let d2: i64 = dist_sq(&ppos, &pu.pos);
            let reach: i64 = pr + POWERUP_RADIUS;
            if d2 <= reach * reach {
                let label: Label = match pu.kind {
                    PowerKind::Invuln => {
                        self.power_invuln = BUFF_INVULN_MS;
                        Label::InvulnPickup
                    },
                    PowerKind::Magnet => {
                        self.power_magnet = BUFF_MAGNET_MS;
                        Label::MagnetPickup
                    },
                    PowerKind::DoubleDash => {
                        self.power_ddash = BUFF_DDASH_MS;
                        Label::DoubleDashPickup
                    },
                };
                let ghost tb = self.textfx@;
                self.textfx.push(
                    TextFx { pos: pu.pos, vel: Vec2 { x: 0, y: -40_000 }, life: 900, label },
                );
                proof {
                    assert(self.textfx@.subrange(0, old(self).textfx@.len() as int) =~= tb
                        .subrange(0, old(self).textfx@.len() as int));
                }
                self.add_particles(pu.pos, 28, 300_000);
            } else {
                kept.push(pu);
            }
            i = i + 1;
        }
        proof {
            assert(old(self).powerups@.subrange(0, old(self).powerups@.len() as int) =~= old(
                self,
            ).powerups@);
        }
        self.powerups = kept;
    }
}

/// A bullet after one tick of integration.
pub open spec fn bullet_stepped(b: Bullet, dt: int) -> Bullet {
    Bullet {
        pos: Vec2 {
            x: clamp_spec(
                b.pos.x + qdiv(b.vel.x * dt, 1000),
                -COORD_LIMIT as int,
                COORD_LIMIT as int,
            ) as i64,
            y: clamp_spec(
                b.pos.y + qdiv(b.vel.y * dt, 1000),
                -COORD_LIMIT as int,
                COORD_LIMIT as int,
            ) as i64,
        },
        vel: b.vel,
        r: b.r,
        hostile: b.hostile,
        life: (b.life - dt) as i64,
    }
}

/// Whether the bullet is still within the expanded playfield band.
pub open spec fn bullet_in_field(b: Bullet, w: int, h: int) -> bool {
    &&& -BULLET_MARGIN <= b.pos.x <= w + BULLET_MARGIN
    &&& -BULLET_MARGIN <= b.pos.y <= h + BULLET_MARGIN
}

pub open spec fn bullet_touches(b: Bullet, p: Player) -> bool {
    dist_sq_spec(p.pos, b.pos) <= (p.r + b.r) * (p.r + b.r)
}

/// The bullets left after one tick: expired, strayed, and — against an
/// unshielded player — hostile touching ones go; an absorbed hostile
/// bullet (shielded contact) stays.
pub open spec fn bullets_after(
    s: Seq<Bullet>,
    p: Player,
    shielded: bool,
    w: int,
    h: int,
    dt: int,
) -> Seq<Bullet>
    decreases s.len(),
{
    if s.len() == 0 {
        Seq::empty()
    } else {
        let rest = bullets_after(s.drop_last(), p, shielded, w, h, dt);
        let b = bullet_stepped(s.last(), dt);
        if b.life <= 0 {
            rest
        } else if !bullet_in_field(b, w, h) {
            rest
        } else if b.hostile && bullet_touches(b, p) && !shielded {
            rest
        } else {
            rest.push(b)
        }
    }
}

/// Whether some live in-field hostile bullet reaches an unshielded player
/// this tick.
pub open spec fn any_bullet_hit(
    s: Seq<Bullet>,
    p: Player,
    shielded: bool,
    w: int,
    h: int,
    dt: int,
) -> bool
    decreases s.len(),
{
    if s.len() == 0 {
        false
    } else {
        let rest = any_bullet_hit(s.drop_last(), p, shielded, w, h, dt);
        let b = bullet_stepped(s.last(), dt);
        rest || (b.life > 0 && bullet_in_field(b, w, h) && b.hostile && bullet_touches(b, p)
            && !shielded)
    }
}

/// One bullet pass: every bullet integrates and burns lifetime; expired
/// or strayed ones are culled; a hostile touch on a shielded player is
/// absorbed (the bullet stays), on an unshielded player it ends the round
/// and the bullet goes.
pub open spec fn bullets_rel(pre: Game, post: Game, dt: int) -> bool {
    let shielded = pre.player.invuln > 0 || pre.power_invuln > 0;
    let hit = any_bullet_hit(
        pre.bullets@,
        pre.player,
        shielded,
        pre.width as int,
        pre.height as int,
        dt,
    );
    &&& post.bullets@ == bullets_after(
        pre.bullets@,
        pre.player,
        shielded,
        pre.width as int,
        pre.height as int,
        dt,
    )
    &&& (forall|k: int|
        0 <= k < post.bullets@.len() ==> bullet_in_field(
            #[trigger] post.bullets@[k],
            pre.width as int,
            pre.height as int,
        ))
    &&& post.player == pre.player
    &&& (hit ==> {
        &&& post.over
        &&& !post.paused && !post.shop_open
        &&& post.shake == 20_000
        &&& post.eco == (Economy {
            best: (if pre.eco.score > pre.eco.best {
                pre.eco.score
            } else {
                pre.eco.best
            }),
            ..pre.eco
        })
    })
    &&& (!hit ==> {
        &&& post.eco == pre.eco
        &&& post.over == pre.over
        &&& post.shake == pre.shake
        &&& post.paused == pre.paused
        &&& post.shop_open == pre.shop_open
    })
    &&& post == (Game {
        bullets: post.bullets,
        eco: post.eco,
        over: post.over,
        shake: post.shake,
        paused: post.paused,
        shop_open: post.shop_open,
        particles: post.particles,
        ..pre
    })
}

impl Game {
    /// Bullet resolution: integrate, cull expired and strayed bullets, and
    /// resolve hostile contact — absorbed with a spark while shielded,
    /// otherwise the round ends.
    fn bullets_tick(&mut self, dt: i64)
        requires
            old(self).wf(),
            0 < dt <= 1000,
        ensures
            final(self).wf(),
            bullets_rel(*old(self), *final(self), dt as int),
    {
        let ppos: Vec2 = self.player.pos;
        let pr: i64 = self.player.r;
        let shielded: bool = self.player.invuln > 0 || self.power_invuln > 0;
        let w: i64 = self.width;
        let h: i64 = self.height;
        let mut kept: Vec<Bullet> = Vec::new();
        let mut i: usize = 0;
        while i < self.bullets.len()
            invariant
                i <= self.bullets.len(),
                old(self).wf(),
                self.wf(),
                ppos == old(self).player.pos,
                pr == old(self).player.r,
                shielded == (old(self).player.invuln > 0 || old(self).power_invuln > 0),
                w == old(self).width,
                h == old(self).height,
                0 < dt <= 1000,
                self.bullets@ == old(self).bullets@,
                kept@ == bullets_after(
                    old(self).bullets@.subrange(0, i as int),
                    old(self).player,
                    shielded,
                    w as int,
                    h as int,
                    dt as int,
                ),
                forall|k: int| 0 <= k < kept@.len() ==> (#[trigger] kept@[k]).wf(),
                forall|k: int|
                    0 <= k < kept@.len() ==> bullet_in_field(
                        #[trigger] kept@[k],
                        w as int,
                        h as int,
                    ),
                (any_bullet_hit(
                    old(self).bullets@.subrange(0, i as int),
                    old(self).player,
                    shielded,
                    w as int,
                    h as int,
                    dt as int,
                ) ==> {
                    &&& self.over
                    &&& !self.paused && !self.shop_open
                    &&& self.shake == 20_000
                    &&& self.eco == (Economy {
                        best: (if old(self).eco.score > old(self).eco.best {
                            old(self).eco.score
                        } else {
                            old(self).eco.best
                        }),
                        ..old(self).eco
                    })
                }),
                (!any_bullet_hit(
                    old(self).bullets@.subrange(0, i as int),
                    old(self).player,
                    shielded,
                    w as int,
                    h as int,
                    dt as int,
                ) ==> {
                    &&& self.eco == old(self).eco
                    &&& self.over == old(self).over
                    &&& self.shake == old(self).shake
                    &&& self.paused == old(self).paused
                    &&& self.shop_open == old(self).shop_open
                }),
                self.player == old(self).player,
                *self == (Game {
                    eco: self.eco,
                    over: self.over,
                    shake: self.shake,
                    paused: self.paused,
                    shop_open: self.shop_open,
                    particles: self.particles,
                    ..*old(self)
                }),
            decreases self.bullets.len() - i,
        {
            let b: Bullet = self.bullets[i];
            proof {
                assert(old(self).bullets[i as int].wf());
                assert(old(self).bullets@.subrange(0, i + 1).drop_last() =~= old(
                    self,
                ).bullets@.subrange(0, i as int));
                assert(old(self).bullets@.subrange(0, i + 1).last() == old(self).bullets@[i as int]);
                assert(-1_000_000_000_000 <= b.vel.x * dt <= 1_000_000_000_000int)
                    by (nonlinear_arith)
                    requires -1_000_000_000 <= b.vel.x <= 1_000_000_000int, 0 < dt <= 1000;
                assert(-1_000_000_000_000 <= b.vel.y * dt <= 1_000_000_000_000int)
                    by (nonlinear_arith)
                    requires -1_000_000_000 <= b.vel.y <= 1_000_000_000int, 0 < dt <= 1000;
            }
            let sx: i64 = mul_div(b.vel.x, dt, 1000);
            let sy: i64 = mul_div(b.vel.y, dt, 1000);
            let nb: Bullet = Bullet {
                pos: Vec2 { x: sat_coord(b.pos.x + sx), y: sat_coord(b.pos.y + sy) },
                vel: b.vel,
                r: b.r,
                hostile: b.hostile,
                life: b.life - dt,
            };
            proof {
                assert(nb == bullet_stepped(old(self).bullets@[i as int], dt as int));
            }
            if nb.life <= 0 {
            } else if nb.pos.x < -BULLET_MARGIN || nb.pos.x > w + BULLET_MARGIN || nb.pos.y
                < -BULLET_MARGIN || nb.pos.y > h + BULLET_MARGIN {
            } else {
                let mut remove: bool = false;
                if nb.hostile {
                    let d2: i64 = dist_sq(&ppos, &nb.pos);
                    let reach: i64 = pr + nb.r;
                    proof {
                        assert(0 <= reach * reach <= 13_225_000_000int) by (nonlinear_arith)
                            requires 0 <= reach <= 115_000int;
                    }
                    if d2 <= reach * reach {
                        if shielded {
                            self.add_particles(nb.pos, 10, 180_000);
                        } else {
                            self.game_over();
                            remove = true;
                        }
                    }
                }
                if !remove {
                    kept.push(nb);
                }
            }
            i = i + 1;
        }
        proof {
            assert(old(self).bullets@.subrange(0, old(self).bullets@.len() as int) =~= old(
                self,
            ).bullets@);
        }
        self.bullets = kept;
    }
}

/// The boss's horizontal position: a sinusoidal sweep across a band of
/// the playfield, driven by the phase.
pub open spec fn boss_osc_x(w: int, phase: int) -> int {
    w / 2 + qdiv(sin_mrad_spec(phase * 12 / 10) * (w * 35 / 100), 1000)
}

pub open spec fn boss_stepped_pos(b: Boss, w: int, dt: int) -> Vec2 {
    Vec2 { x: boss_osc_x(w, b.phase + dt) as i64, y: b.pos.y }
}

/// Whether the stepped boss overlaps an unshielded player.
pub open spec fn boss_hits_player(b: Boss, p: Player, shielded: bool, w: int, dt: int) -> bool {
    dist_sq_spec(p.pos, boss_stepped_pos(b, w, dt)) <= (p.r + BOSS_RADIUS) * (p.r + BOSS_RADIUS)
        && !shielded
}

/// What clearing the boss pays: a combo-armed score bump and currency.
pub open spec fn boss_reward_eco(e: Economy) -> Economy {
    Economy {
        score: capped(e.score + BOSS_REWARD, SCORE_CAP as int) as i64,
        combo: capped(e.combo + crate::economy::COMBO_INC_TENTHS, COMBO_CAP as int) as i64,
        combo_t: COMBO_TIME_MS,
        currency: capped(e.currency + BOSS_REWARD, CURRENCY_CAP as int) as i64,
        best: e.best,
    }
}

/// The boss arrival check: once the score crosses the threshold while
/// no boss is active, the boss appears over the upper band with a full
/// countdown, announced by a label; otherwise nothing happens.
pub open spec fn boss_spawn_rel(pre: Game, post: Game) -> bool {
    &&& ((pre.boss is None && pre.eco.score >= pre.next_boss_score) ==> {
        &&& post.boss == Some(
            Boss {
                pos: Vec2 { x: (pre.width / 2) as i64, y: (pre.height * 35 / 100) as i64 },
                timer: BOSS_TIME_MS,
                phase: 0,
            },
        )
        &&& post.textfx@.len() == pre.textfx@.len() + 1
        &&& post.textfx@.subrange(0, pre.textfx@.len() as int) == pre.textfx@
        &&& post.textfx@.last().label == Label::BossArrived
        &&& post == (Game { boss: post.boss, textfx: post.textfx, ..pre })
    })
    &&& (!(pre.boss is None && pre.eco.score >= pre.next_boss_score) ==> post == pre)
}

/// One boss tick: the sweep, the two fire patterns on their periods,
/// contact with an unshielded player ending the round, and the countdown
/// paying out and raising the threshold when it expires.
pub open spec fn boss_step_rel(pre: Game, post: Game, dt: int) -> bool {
    match pre.boss {
        None => post == pre,
        Some(b) => {
            let shielded = pre.player.invuln > 0 || pre.power_invuln > 0;
            let hit = boss_hits_player(b, pre.player, shielded, pre.width as int, dt);
            let expired = b.timer - dt <= 0;
            let ring = (b.phase + dt) % 1600 < dt;
            let aim = (b.phase + dt) % 600 < dt;
            let mid = (if hit {
                Economy {
                    best: (if pre.eco.score > pre.eco.best {
                        pre.eco.score
                    } else {
                        pre.eco.best
                    }),
                    ..pre.eco
                }
            } else {
                pre.eco
            });
            &&& post.boss == (if expired {
                Option::<Boss>::None
            } else {
                Some(
                    Boss {
                        pos: boss_stepped_pos(b, pre.width as int, dt),
                        timer: (b.timer - dt) as i64,
                        phase: (b.phase + dt) as i64,
                    },
                )
            })
            &&& post.eco == (if expired {
                boss_reward_eco(mid)
            } else {
                mid
            })
            &&& post.next_boss_score == (if expired {
                capped(pre.next_boss_score + BOSS_SCORE_STEP, 2 * SCORE_CAP as int)
            } else {
                pre.next_boss_score as int
            })
            &&& post.over == (pre.over || hit)
            &&& (hit ==> post.shake == 20_000 && !post.paused && !post.shop_open)
            &&& (!hit ==> post.shake == pre.shake && post.paused == pre.paused && post.shop_open
                == pre.shop_open)
            &&& post.bullets@.len() == pre.bullets@.len() + (if ring {
                16int
            } else {
                0int
            }) + (if aim {
                1int
            } else {
                0int
            })
            &&& post.bullets@.subrange(0, pre.bullets@.len() as int) == pre.bullets@
            &&& (forall|k: int|
                pre.bullets@.len() <= k < post.bullets@.len() ==> (
                #[trigger] post.bullets@[k]).hostile)
            &&& post.textfx@.len() >= pre.textfx@.len()
            &&& post.textfx@.subrange(0, pre.textfx@.len() as int) == pre.textfx@
            &&& post.player == pre.player
            &&& post == (Game {
                boss: post.boss,
                bullets: post.bullets,
                textfx: post.textfx,
                eco: post.eco,
                next_boss_score: post.next_boss_score,
                over: post.over,
                shake: post.shake,
                paused: post.paused,
                shop_open: post.shop_open,
                particles: post.particles,
                ..pre
            })
        },
    }
}

impl Game {
    /// Raises the boss once the score crosses the threshold while none is
    /// active.
    fn boss_spawn_check(&mut self)
        requires
            old(self).wf(),
        ensures
            final(self).wf(),
            boss_spawn_rel(*old(self), *final(self)),
    {
        let due: bool = self.boss.is_none() && self.eco.score >= self.next_boss_score;
        if due {
            let cx: i64 = ((self.width as u64) / 2) as i64;
            let by: i64 = (((self.height as u64) * 35) / 100) as i64;
            self.boss = Some(Boss { pos: Vec2 { x: cx, y: by }, timer: BOSS_TIME_MS, phase: 0 });
            let ghost tb = self.textfx@;
            self.textfx.push(
                TextFx {
                    pos: Vec2 { x: cx, y: 80_000 },
                    vel: Vec2 { x: 0, y: 0 },
                    life: 2000,
                    label: Label::BossArrived,
                },
            );
            proof {
                assert(self.textfx@.subrange(0, tb.len() as int) =~= tb);
            }
        }
    }

    /// One boss tick: sweep, the two fire patterns on their periods,
    /// contact with the player, and the countdown toward the reward.
    #[verifier::rlimit(60)]
    fn boss_step(&mut self, dt: i64)
        requires
            old(self).wf(),
            0 < dt <= 1000,
        ensures
            final(self).wf(),
            boss_step_rel(*old(self), *final(self), dt as int),
    {
        let b: Boss = match &self.boss {
            None => {
                return ;
            },
            Some(bb) => *bb,
        };
        let ph2: i64 = b.phase + dt;
        let tm2: i64 = b.timer - dt;
        let amp: i64 = (((self.width as u64) * 35) / 100) as i64;
        let ang: i64 = (((ph2 as u64) * 12) / 10) as i64;
        let sv: i64 = sin_mrad(ang);
        proof {
            assert(-200_000_000_000 <= sv * amp <= 200_000_000_000int) by (nonlinear_arith)
                requires -1000 <= sv <= 1000, 0 <= amp <= 175_000_000int;
        }
        let off: i64 = mul_div(sv, amp, 1000);
        let cx: i64 = ((self.width as u64) / 2) as i64;
        let bpos: Vec2 = Vec2 { x: cx + off, y: b.pos.y };
        proof {
            assert(bpos.x == boss_osc_x(old(self).width as int, b.phase + dt));
        }
        let ppos: Vec2 = self.player.pos;
        let pr: i64 = self.player.r;
        if remu(ph2, 1600) < dt {
            let ghost bb0 = self.bullets@;
            let mut k: usize = 0;
            while k < 16
                invariant
                    k <= 16,
                    self.bullets@.len() == bb0.len() + k,
                    self.bullets@.subrange(0, bb0.len() as int) == bb0,
                    forall|j: int|
                        bb0.len() <= j < self.bullets@.len() ==> (
                        #[trigger] self.bullets@[j]).hostile,
                    forall|j: int|
                        0 <= j < self.bullets@.len() ==> (#[trigger] self.bullets@[j]).wf(),
                    bpos.coords_bounded(),
                    *self == (Game { bullets: self.bullets, ..*old(self) }),
                decreases 16 - k,
            {
                let angk: i64 = (((k as u64) * 6283) / 16) as i64;
                let c: i64 = cos_mrad(angk);
                let sn: i64 = sin_mrad(angk);
                let ghost bprev = self.bullets@;
                self.bullets.push(
                    Bullet {
                        pos: bpos,
                        vel: Vec2 { x: c * 240, y: sn * 240 },
                        r: 6_000,
                        hostile: true,
                        life: 6000,
                    },
                );
                proof {
                    assert(self.bullets@.subrange(0, bb0.len() as int) =~= bprev.subrange(
                        0,
                        bb0.len() as int,
                    ));
                }
                k = k + 1;
            }
        }
        if remu(ph2, 600) < dt {
            let dxv: i64 = ppos.x - bpos.x;
            let dyv: i64 = ppos.y - bpos.y;
            let dir: Vec2 = if dxv == 0 && dyv == 0 {
                Vec2 { x: 0, y: 0 }
            } else {
                unit_scaled(dxv, dyv)
            };
            let ghost bprev = self.bullets@;
            self.bullets.push(
                Bullet {
                    pos: bpos,
                    vel: Vec2 { x: dir.x * 420, y: dir.y * 420 },
                    r: 5_000,
                    hostile: true,
                    life: 5000,
                },
            );
            proof {
                assert(self.bullets@.subrange(0, old(self).bullets@.len() as int) =~= bprev
                    .subrange(0, old(self).bullets@.len() as int));
            }
        }
        let shielded: bool = self.player.invuln > 0 || self.power_invuln > 0;
        let d2: i64 = dist_sq(&ppos, &bpos);
        let reach: i64 = pr + BOSS_RADIUS;
        proof {
            assert(0 <= reach * reach <= 3_721_000_000int) by (nonlinear_arith)
                requires 0 <= reach <= 61_000int;
        }
        if d2 <= reach * reach && !shielded {
            self.game_over();
        }
        if tm2 <= 0 {
            let ghost tb = self.textfx@;
            self.textfx.push(
                TextFx {
                    pos: bpos,
                    vel: Vec2 { x: 0, y: -40_000 },
                    life: 1200,
                    label: Label::BossCleared,
                },
            );
            proof {
                assert(self.textfx@.subrange(0, old(self).textfx@.len() as int) =~= tb.subrange(
                    0,
                    old(self).textfx@.len() as int,
                ));
            }
            self.eco.add_currency(BOSS_REWARD);
            self.eco.bump_score(BOSS_REWARD);
            let nnext: i64 = self.next_boss_score + BOSS_SCORE_STEP;
            self.next_boss_score = if nnext > 2 * SCORE_CAP {
                2 * SCORE_CAP
            } else {
                nnext
            };
            self.boss = None;
        } else {
            self.boss = Some(Boss { pos: bpos, timer: tm2, phase: ph2 });
        }
        proof {
            match old(self).boss {
                None => {
                },
                Some(b) => {
                    let shieldedg = old(self).player.invuln > 0 || old(self).power_invuln > 0;
                    let hitg = boss_hits_player(
                        b,
                        old(self).player,
                        shieldedg,
                        old(self).width as int,
                        dt as int,
                    );
                    let expiredg = b.timer - dt <= 0;
                    let ringg = (b.phase + dt) % 1600 < dt;
                    let aimg = (b.phase + dt) % 600 < dt;
                    assert(self.boss == (if expiredg {
                        Option::<Boss>::None
                    } else {
                        Some(
                            Boss {
                                pos: boss_stepped_pos(b, old(self).width as int, dt as int),
                                timer: (b.timer - dt) as i64,
                                phase: (b.phase + dt) as i64,
                            },
                        )
                    }));
                    assert(self.next_boss_score == (if expiredg {
                        capped(old(self).next_boss_score + BOSS_SCORE_STEP, 2 * SCORE_CAP as int)
                    } else {
                        old(self).next_boss_score as int
                    }));
                    assert(self.over == (old(self).over || hitg));
                    assert(self.bullets@.len() == old(self).bullets@.len() + (if ringg {
                        16int
                    } else {
                        0int
                    }) + (if aimg {
                        1int
                    } else {
                        0int
                    }));
                    assert(self.player == old(self).player);
                    let midg = (if hitg {
                        Economy {
                            best: (if old(self).eco.score > old(self).eco.best {
                                old(self).eco.score
                            } else {
                                old(self).eco.best
                            }),
                            ..old(self).eco
                        }
                    } else {
                        old(self).eco
                    });
                    assert(self.eco == (if expiredg {
                        boss_reward_eco(midg)
                    } else {
                        midg
                    }));
                    assert(hitg ==> self.shake == 20_000 && !self.paused && !self.shop_open);
                    assert(!hitg ==> self.shake == old(self).shake && self.paused == old(
                        self,
                    ).paused && self.shop_open == old(self).shop_open);
                    assert(self.bullets@.subrange(0, old(self).bullets@.len() as int) == old(
                        self,
                    ).bullets@);
                    assert(forall|k: int|
                        old(self).bullets@.len() <= k < self.bullets@.len() ==> (
                        #[trigger] self.bullets@[k]).hostile);
                    assert(self.textfx@.len() >= old(self).textfx@.len());
                    assert(self.textfx@.subrange(0, old(self).textfx@.len() as int) == old(
                        self,
                    ).textfx@);
                    assert(*self == (Game {
                        boss: self.boss,
                        bullets: self.bullets,
                        textfx: self.textfx,
                        eco: self.eco,
                        next_boss_score: self.next_boss_score,
                        over: self.over,
                        shake: self.shake,
                        paused: self.paused,
                        shop_open: self.shop_open,
                        particles: self.particles,
                        ..*old(self)
                    }));
                },
            }
        }
    }

}

/// A fresh enemy as a spawn leaves it: a steering kind under three, the
/// shooter cooldown armed, and a position just outside one of the four
/// playfield edges with the free coordinate drawn inside the field.
pub open spec fn spawned_enemy_ok(e: Enemy, w: int, h: int) -> bool {
    &&& e.wf()
    &&& e.kind <= 2
    &&& e.cool == crate::entities::SHOOTER_COOL_START_MS
    &&& (((e.pos.y == -SPAWN_MARGIN || e.pos.y == h + SPAWN_MARGIN) && 0 <= e.pos.x < w) || ((
    e.pos.x == -SPAWN_MARGIN || e.pos.x == w + SPAWN_MARGIN) && 0 <= e.pos.y < h))
}

/// The interval the enemy spawn clock re-arms with, under the given
/// accumulated pressure.
pub open spec fn spawn_interval(boost_us: int) -> int {
    if boost_us / 1000 >= ENEMY_SPAWN_START_MS - ENEMY_SPAWN_MIN_MS {
        ENEMY_SPAWN_MIN_MS as int
    } else {
        ENEMY_SPAWN_START_MS - boost_us / 1000
    }
}

/// One enemy spawn-clock tick: pressure accumulates (saturated), the
/// clock runs down, and a lapse appends exactly one edge spawn and
/// re-arms the clock at the pressured interval.
pub open spec fn enemy_spawn_rel(pre: Game, post: Game, dt: int) -> bool {
    &&& post.enemy_rate_boost_us == capped(
        pre.enemy_rate_boost_us + dt * 30,
        1_000_000_000_000_000,
    )
    &&& (pre.spawn_timer - dt <= 0 ==> {
        &&& post.enemies@.len() == pre.enemies@.len() + 1
        &&& post.enemies@.subrange(0, pre.enemies@.len() as int) == pre.enemies@
        &&& spawned_enemy_ok(post.enemies@.last(), pre.width as int, pre.height as int)
        &&& post.spawn_timer == spawn_interval(post.enemy_rate_boost_us as int)
    })
    &&& (pre.spawn_timer - dt > 0 ==> {
        &&& post.enemies@ == pre.enemies@
        &&& post.spawn_timer == pre.spawn_timer - dt
    })
    &&& post == (Game {
        enemies: post.enemies,
        spawn_timer: post.spawn_timer,
        enemy_rate_boost_us: post.enemy_rate_boost_us,
        ..pre
    })
}

/// One shard spawn-clock tick: a lapse drops one shard inside the inset
/// box and re-arms the fixed interval.
pub open spec fn shard_spawn_rel(pre: Game, post: Game, dt: int) -> bool {
    &&& (pre.shard_timer - dt <= 0 ==> {
        &&& post.shards@.len() == pre.shards@.len() + 1
        &&& post.shards@.subrange(0, pre.shards@.len() as int) == pre.shards@
        &&& post.shards@.last().wf()
        &&& 40_000 <= post.shards@.last().pos.x < pre.width - 40_000
        &&& 40_000 <= post.shards@.last().pos.y < pre.height - 40_000
        &&& post.shard_timer == SHARD_SPAWN_MS
    })
    &&& (pre.shard_timer - dt > 0 ==> {
        &&& post.shards@ == pre.shards@
        &&& post.shard_timer == pre.shard_timer - dt
    })
    &&& post == (Game { shards: post.shards, shard_timer: post.shard_timer, ..pre })
}

/// One power-up spawn-clock tick: a lapse drops one power-up inside the
/// inset box and re-arms the clock with a drawn delay.
pub open spec fn powerup_spawn_rel(pre: Game, post: Game, dt: int) -> bool {
    &&& (pre.powerup_timer - dt <= 0 ==> {
        &&& post.powerups@.len() == pre.powerups@.len() + 1
        &&& post.powerups@.subrange(0, pre.powerups@.len() as int) == pre.powerups@
        &&& post.powerups@.last().wf()
        &&& 40_000 <= post.powerups@.last().pos.x < pre.width - 40_000
        &&& 40_000 <= post.powerups@.last().pos.y < pre.height - 40_000
        &&& 7000 <= post.powerup_timer < 13_000
    })
    &&& (pre.powerup_timer - dt > 0 ==> {
        &&& post.powerups@ == pre.powerups@
        &&& post.powerup_timer == pre.powerup_timer - dt
    })
    &&& post == (Game { powerups: post.powerups, powerup_timer: post.powerup_timer, ..pre })
}

/// The intermediate states one live tick passes through, in pipeline
/// order, handed back as a ghost witness so the per-stage relations in
/// `Game::update`'s contract can name them.
pub struct TickTrace {
    pub after_clock: Game,
    pub after_buffs: Game,
    pub after_player: Game,
    pub after_enemy_spawn: Game,
    pub after_boss_spawn: Game,
    pub after_boss: Game,
    pub after_shard_spawn: Game,
    pub after_powerup_spawn: Game,
    pub after_steer: Game,
    pub after_shooter: Game,
    pub after_near_miss: Game,
    /// How many near-miss rolls paid this tick.
    pub near_miss_events: int,
    pub after_enemy_contact: Game,
    pub after_shards: Game,
    pub after_powerups: Game,
    pub after_bullets: Game,
    pub after_combo_decay: Game,
}

impl Game {
    /// Runs the enemy spawn clock: the interval shrinks with accumulated
    /// round pressure toward its floor, and a lapse drops one enemy.
    fn spawn_tick(&mut self, dt: i64)
        requires
            old(self).wf(),
            0 < dt <= 1000,
        ensures
            final(self).wf(),
            enemy_spawn_rel(*old(self), *final(self), dt as int),
    {
        let nb: i64 = self.enemy_rate_boost_us + dt * 30;
        self.enemy_rate_boost_us = if nb > 1_000_000_000_000_000 {
            1_000_000_000_000_000
        } else {
            nb
        };
        let nst: i64 = self.spawn_timer - dt;
        if nst <= 0 {
            self.spawn_enemy();
            let slow: i64 = ((self.enemy_rate_boost_us as u64) / 1000) as i64;
            let rate: i64 = if slow >= ENEMY_SPAWN_START_MS - ENEMY_SPAWN_MIN_MS {
                ENEMY_SPAWN_MIN_MS
            } else {
                ENEMY_SPAWN_START_MS - slow
            };
            self.spawn_timer = rate;
        } else {
            self.spawn_timer = nst;
        }
    }

    /// Runs the shard spawn clock.
    fn shard_spawn_tick(&mut self, dt: i64)
        requires
            old(self).wf(),
            0 < dt <= 1000,
        ensures
            final(self).wf(),
            shard_spawn_rel(*old(self), *final(self), dt as int),
    {
        let nst: i64 = self.shard_timer - dt;
        if nst <= 0 {
            self.spawn_shard();
            self.shard_timer = SHARD_SPAWN_MS;
        } else {
            self.shard_timer = nst;
        }
    }

    /// Runs the power-up spawn clock; a lapse drops one power-up and
    /// re-arms the clock with a drawn delay.
    fn powerup_spawn_tick(&mut self, dt: i64)
        requires
            old(self).wf(),
            0 < dt <= 1000,
        ensures
            final(self).wf(),
            powerup_spawn_rel(*old(self), *final(self), dt as int),
    {
        let nt: i64 = self.powerup_timer - dt;
        if nt <= 0 {
            self.spawn_powerup();
            self.powerup_timer = sample_range(7000, 13_000);
        } else {
            self.powerup_timer = nt;
        }
    }

    /// One fixed-timestep tick of the whole simulation, in the fixed
    /// order: buffs, player motion, spawn clocks, boss, steering, shooter
    /// fire, near-miss sampling, enemy contact, shard pickup and
    /// attraction, power-up pickup, bullets, combo decay, transient decay.
    /// Over a finished round only the transient effects keep decaying.
    /// The ghost trace returned names the state after each stage, so the
    /// contract carries every stage's relation to the caller.
    #[verifier::rlimit(100)]
    pub fn update(&mut self, dt: i64, input: MoveInput) -> (trace: Ghost<TickTrace>)
        requires
            old(self).wf(),
            0 < dt <= 1000,
        ensures
            final(self).wf(),
            final(self).width == old(self).width && final(self).height == old(self).height,
            final(self).upgrades == old(self).upgrades,
            old(self).over ==> {
                &&& final(self).over
                &&& final(self).player == old(self).player
                &&& final(self).enemies@ == old(self).enemies@
                &&& final(self).shards@ == old(self).shards@
                &&& final(self).bullets@ == old(self).bullets@
                &&& final(self).powerups@ == old(self).powerups@
                &&& final(self).eco == old(self).eco
                &&& final(self).boss == old(self).boss
                &&& final(self).particles@ == decay_particles(old(self).particles@, dt as int)
                &&& final(self).textfx@ == decay_textfx(old(self).textfx@, dt as int)
                &&& final(self).shake == floor0(old(self).shake - SHAKE_DECAY * dt)
            },
            old(self).over ==> final(self).over,
            final(self).paused ==> old(self).paused,
            final(self).shop_open ==> old(self).shop_open,
            !old(self).over ==> final(self).t_ms == capped(
                old(self).t_ms + dt,
                CLOCK_LIMIT_MS as int,
            ),
            // the live tick, stage by stage through the returned trace
            !old(self).over ==> {
                let tr = trace@;
                &&& tr.after_clock == (Game {
                    t_ms: capped(old(self).t_ms + dt, CLOCK_LIMIT_MS as int) as i64,
                    ..*old(self)
                })
                &&& buffs_rel(tr.after_clock, tr.after_buffs, dt as int)
                &&& player_stage_rel(tr.after_buffs, tr.after_player, dt as int, input)
                &&& enemy_spawn_rel(tr.after_player, tr.after_enemy_spawn, dt as int)
                &&& boss_spawn_rel(tr.after_enemy_spawn, tr.after_boss_spawn)
                &&& boss_step_rel(tr.after_boss_spawn, tr.after_boss, dt as int)
                &&& shard_spawn_rel(tr.after_boss, tr.after_shard_spawn, dt as int)
                &&& powerup_spawn_rel(tr.after_shard_spawn, tr.after_powerup_spawn, dt as int)
                &&& steer_rel(tr.after_powerup_spawn, tr.after_steer, dt as int)
                &&& shooter_rel(tr.after_steer, tr.after_shooter)
                &&& near_miss_rel(tr.after_shooter, tr.after_near_miss, tr.near_miss_events)
                &&& enemy_contact_rel(tr.after_near_miss, tr.after_enemy_contact)
                &&& shard_pass_rel(tr.after_enemy_contact, tr.after_shards, dt as int)
                &&& powerup_pass_rel(tr.after_shards, tr.after_powerups)
                &&& bullets_rel(tr.after_powerups, tr.after_bullets, dt as int)
                &&& tr.after_combo_decay == (Game {
                    eco: eco_decayed(tr.after_bullets.eco, dt as int),
                    ..tr.after_bullets
                })
                &&& final(self).particles@ == decay_particles(
                    tr.after_combo_decay.particles@,
                    dt as int,
                )
                &&& final(self).textfx@ == decay_textfx(tr.after_combo_decay.textfx@, dt as int)
                &&& final(self).shake == floor0(tr.after_combo_decay.shake - SHAKE_DECAY * dt)
                &&& *final(self) == (Game {
                    particles: final(self).particles,
                    textfx: final(self).textfx,
                    shake: final(self).shake,
                    ..tr.after_combo_decay
                })
            },
            !old(self).over ==> {
                &&& final(self).player.pos_in(old(self).width as int, old(self).height as int)
                &&& (forall|k: int|
                    0 <= k < final(self).bullets@.len() ==> bullet_in_field(
                        #[trigger] final(self).bullets@[k],
                        old(self).width as int,
                        old(self).height as int,
                    ))
                &&& final(self).eco.best >= old(self).eco.best
                &&& final(self).eco.combo >= 0
            },
    {
        if self.over {
            decay_particles_vec(&mut self.particles, dt);
            decay_textfx_vec(&mut self.textfx, dt);
            let ns: i64 = self.shake - SHAKE_DECAY * dt;
            self.shake = if ns < 0 {
                0
            } else {
                ns
            };
            let ghost idle = TickTrace {
                after_clock: *self,
                after_buffs: *self,
                after_player: *self,
                after_enemy_spawn: *self,
                after_boss_spawn: *self,
                after_boss: *self,
                after_shard_spawn: *self,
                after_powerup_spawn: *self,
                after_steer: *self,
                after_shooter: *self,
                after_near_miss: *self,
                near_miss_events: 0,
                after_enemy_contact: *self,
                after_shards: *self,
                after_powerups: *self,
                after_bullets: *self,
                after_combo_decay: *self,
            };
            return Ghost(idle);
        }
        let ntm: i64 = self.t_ms + dt;
        self.t_ms = if ntm > CLOCK_LIMIT_MS {
            CLOCK_LIMIT_MS
        } else {
            ntm
        };
        let ghost s_clock = *self;
        self.buffs_tick(dt);
        let ghost s_buffs = *self;
        let speed: i64 = self.upgrades.player_speed();
        let w: i64 = self.width;
        let h: i64 = self.height;
        self.player.update(dt, speed, input, w, h);
        let ghost s_player = *self;
        proof {
            assert(player_stage_rel(s_buffs, s_player, dt as int, input));
        }
        self.spawn_tick(dt);
        let ghost s_enemy_spawn = *self;
        self.boss_spawn_check();
        let ghost s_boss_spawn = *self;
        self.boss_step(dt);
        let ghost s_boss = *self;
        self.shard_spawn_tick(dt);
        let ghost s_shard_spawn = *self;
        self.powerup_spawn_tick(dt);
        let ghost s_powerup_spawn = *self;
        self.steer_tick(dt);
        let ghost s_steer = *self;
        self.shooter_tick(dt);
        let ghost s_shooter = *self;
        let events: Ghost<int> = self.near_miss_tick();
        let ghost s_near_miss = *self;
        self.enemy_contact_tick();
        let ghost s_contact = *self;
        self.shard_tick(dt);
        let ghost s_shards = *self;
        self.powerup_tick();
        let ghost s_powerups = *self;
        self.bullets_tick(dt);
        let ghost s_bullets = *self;
        self.eco.decay_tick(dt);
        let ghost s_decay = *self;
        decay_particles_vec(&mut self.particles, dt);
        decay_textfx_vec(&mut self.textfx, dt);
        let ns: i64 = self.shake - SHAKE_DECAY * dt;
        self.shake = if ns < 0 {
            0
        } else {
            ns
        };
        proof {
            assert(self.player.pos_in(old(self).width as int, old(self).height as int));
            assert(forall|k: int|
                0 <= k < self.bullets@.len() ==> bullet_in_field(
                    #[trigger] self.bullets@[k],
                    old(self).width as int,
                    old(self).height as int,
                ));
            assert(self.eco.best >= old(self).eco.best);
            assert(self.eco.combo >= 0);
        }
        let ghost tr = TickTrace {
            after_clock: s_clock,
            after_buffs: s_buffs,
            after_player: s_player,
            after_enemy_spawn: s_enemy_spawn,
            after_boss_spawn: s_boss_spawn,
            after_boss: s_boss,
            after_shard_spawn: s_shard_spawn,
            after_powerup_spawn: s_powerup_spawn,
            after_steer: s_steer,
            after_shooter: s_shooter,
            after_near_miss: s_near_miss,
            near_miss_events: events@,
            after_enemy_contact: s_contact,
            after_shards: s_shards,
            after_powerups: s_powerups,
            after_bullets: s_bullets,
            after_combo_decay: s_decay,
        };
        Ghost(tr)
    }
}

} // verus!
