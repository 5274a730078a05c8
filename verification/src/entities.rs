//! The hostile and collectible entities: enemies with their three steering
//! kinds (plus the shooter), shards, bullets, power-ups and the boss.

use vstd::prelude::*;
use crate::geom::{
    clamp_spec, mul_div, qdiv, remu, sat_coord, unit_comp_spec, unit_scaled, Vec2, COORD_LIMIT,
};
use crate::trig::{cos_mrad, cos_mrad_spec, sin_mrad, sin_mrad_spec, TAU_MRAD};

verus! {

/// Orbiters and chasers are this wide, in milli-pixels.
pub const ENEMY_RADIUS_WIDE: i64 = 12_000;

/// Flankers are slightly narrower.
pub const ENEMY_RADIUS_NARROW: i64 = 10_000;

/// Base enemy speed in milli-pixels per second.
pub const ENEMY_BASE_SPEED: i64 = 120_000;

/// A shooter starts with this fire cooldown, in ms.
pub const SHOOTER_COOL_START_MS: i64 = 800;

/// A shooter re-arms with a cooldown below this bound, in ms.
pub const SHOOTER_COOL_LIMIT_MS: i64 = 1600;

/// Shard radius in milli-pixels.
pub const SHARD_RADIUS: i64 = 9_000;

/// Power-up radius in milli-pixels.
pub const POWERUP_RADIUS: i64 = 12_000;

/// Boss radius in milli-pixels.
pub const BOSS_RADIUS: i64 = 46_000;

/// The boss countdown starts here, in ms.
pub const BOSS_TIME_MS: i64 = 20_000;

/// Simulated time is kept below this many ms.
pub const CLOCK_LIMIT_MS: i64 = 1_000_000_000_000;

/// The enemy steering kinds.  Kinds keep the tag order of their spawn
/// weights: orbiter, chaser, flanker, and the shooter, which flies like a
/// flanker and also fires.
pub const KIND_ORBITER: u8 = 0;

pub const KIND_CHASER: u8 = 1;

pub const KIND_FLANKER: u8 = 2;

pub const KIND_SHOOTER: u8 = 3;

pub open spec fn enemy_radius_spec(kind: u8) -> int {
    if kind == KIND_FLANKER {
        ENEMY_RADIUS_NARROW as int
    } else {
        ENEMY_RADIUS_WIDE as int
    }
}

/// Speed scales with the kind tag: +15% of the base per step.
pub open spec fn enemy_speed_spec(kind: u8) -> int {
    ENEMY_BASE_SPEED + 18_000 * kind
}

#[derive(Clone, Copy)]
pub struct Enemy {
    pub pos: Vec2,
    pub kind: u8,
    /// Flanker offset angle, in milliradians.
    pub angle: i64,
    /// Shooter fire cooldown, in ms; idle for the other kinds.
    pub cool: i64,
}

/// The orbiter's raw steering sum: a pull toward the playfield centre plus
/// a time- and position-seeded noise swirl.
pub open spec fn orbit_sum_x(pos: Vec2, t_ms: int, w: int) -> int {
    qdiv(w / 2 - pos.x, 5) + cos_mrad_spec(t_ms * 17 / 10 + qdiv(pos.x as int, 100)) * 120
}

pub open spec fn orbit_sum_y(pos: Vec2, t_ms: int, h: int) -> int {
    qdiv(h / 2 - pos.y, 5) + sin_mrad_spec(t_ms * 13 / 10 + qdiv(pos.y as int, 100)) * 120
}

/// The flanker's rotating offset target, relative to the enemy.
pub open spec fn flank_target_x(e: Enemy, ppos: Vec2) -> int {
    ppos.x + cos_mrad_spec(e.angle as int) * 120 - e.pos.x
}

pub open spec fn flank_target_y(e: Enemy, ppos: Vec2) -> int {
    ppos.y + sin_mrad_spec(e.angle as int) * 120 - e.pos.y
}

/// The scaled steering direction an enemy wants this tick; zero when the
/// raw sum degenerates to the zero vector.
pub open spec fn steer_x(e: Enemy, ppos: Vec2, t_ms: int, w: int, h: int) -> int {
    if e.kind == KIND_ORBITER {
        let sx = orbit_sum_x(e.pos, t_ms, w);
        let sy = orbit_sum_y(e.pos, t_ms, h);
        if sx == 0 && sy == 0 {
            0
        } else {
            unit_comp_spec(sx, sx, sy)
        }
    } else if e.kind == KIND_CHASER {
        let dx = ppos.x - e.pos.x;
        let dy = ppos.y - e.pos.y;
        if dx == 0 && dy == 0 {
            0
        } else {
            unit_comp_spec(dx, dx, dy)
        }
    } else {
        let tx = flank_target_x(e, ppos);
        let ty = flank_target_y(e, ppos);
        if tx == 0 && ty == 0 {
            0
        } else {
            unit_comp_spec(tx, tx, ty)
        }
    }
}

pub open spec fn steer_y(e: Enemy, ppos: Vec2, t_ms: int, w: int, h: int) -> int {
    if e.kind == KIND_ORBITER {
        let sx = orbit_sum_x(e.pos, t_ms, w);
        let sy = orbit_sum_y(e.pos, t_ms, h);
        if sx == 0 && sy == 0 {
            0
        } else {
            unit_comp_spec(sy, sx, sy)
        }
    } else if e.kind == KIND_CHASER {
        let dx = ppos.x - e.pos.x;
        let dy = ppos.y - e.pos.y;
        if dx == 0 && dy == 0 {
            0
        } else {
            unit_comp_spec(dy, dx, dy)
        }
    } else {
        let tx = flank_target_x(e, ppos);
        let ty = flank_target_y(e, ppos);
        if tx == 0 && ty == 0 {
            0
        } else {
            unit_comp_spec(ty, tx, ty)
        }
    }
}

/// Position after one steering step, saturated into the coordinate band.
pub open spec fn enemy_next_x(e: Enemy, ppos: Vec2, t_ms: int, w: int, h: int, dt: int) -> int {
    clamp_spec(
        e.pos.x + qdiv(steer_x(e, ppos, t_ms, w, h) * (enemy_speed_spec(e.kind) * dt), 1_000_000),
        -COORD_LIMIT as int,
        COORD_LIMIT as int,
    )
}

pub open spec fn enemy_next_y(e: Enemy, ppos: Vec2, t_ms: int, w: int, h: int, dt: int) -> int {
    clamp_spec(
        e.pos.y + qdiv(steer_y(e, ppos, t_ms, w, h) * (enemy_speed_spec(e.kind) * dt), 1_000_000),
        -COORD_LIMIT as int,
        COORD_LIMIT as int,
    )
}

/// The whole steering tick as one value.
pub open spec fn enemy_stepped(e: Enemy, ppos: Vec2, t_ms: int, w: int, h: int, dt: int) -> Enemy {
    Enemy {
        pos: Vec2 {
            x: enemy_next_x(e, ppos, t_ms, w, h, dt) as i64,
            y: enemy_next_y(e, ppos, t_ms, w, h, dt) as i64,
        },
        kind: e.kind,
        angle: enemy_next_angle(e, dt) as i64,
        cool: e.cool,
    }
}

/// The flanker offset angle turns 2.5 radians per second.
pub open spec fn enemy_next_angle(e: Enemy, dt: int) -> int {
    if e.kind == KIND_FLANKER || e.kind == KIND_SHOOTER {
        (e.angle + 2500 * dt / 1000) % (TAU_MRAD as int)
    } else {
        e.angle as int
    }
}

impl Enemy {
    pub open spec fn wf(self) -> bool {
        &&& self.pos.coords_bounded()
        &&& self.kind <= KIND_SHOOTER
        &&& 0 <= self.angle < TAU_MRAD
        &&& 0 <= self.cool <= SHOOTER_COOL_LIMIT_MS
    }

    pub fn radius(&self) -> (r: i64)
        ensures
            r == enemy_radius_spec(self.kind),
    {
        if self.kind == KIND_FLANKER {
            ENEMY_RADIUS_NARROW
        } else {
            ENEMY_RADIUS_WIDE
        }
    }

    pub fn speed(&self) -> (r: i64)
        requires
            self.kind <= KIND_SHOOTER,
        ensures
            r == enemy_speed_spec(self.kind),
            ENEMY_BASE_SPEED <= r <= 174_000,
    {
        ENEMY_BASE_SPEED + 18_000 * (self.kind as i64)
    }

    pub fn new(pos: Vec2, kind: u8, angle: i64) -> (e: Enemy)
        requires
            pos.coords_bounded(),
            kind <= KIND_SHOOTER,
            0 <= angle < TAU_MRAD,
        ensures
            e.wf(),
            e.pos == pos && e.kind == kind && e.angle == angle,
            e.cool == SHOOTER_COOL_START_MS,
    {
        Enemy { pos, kind, angle, cool: SHOOTER_COOL_START_MS }
    }

    /// One steering tick against the player's position: pick the desired
    /// heading for the kind, advance the position along it, and turn the
    /// flanker offset.
    pub fn update(&mut self, dt: i64, ppos: Vec2, t_ms: i64, w: i64, h: i64)
        requires
            old(self).wf(),
            0 < dt <= 1000,
            0 <= t_ms <= CLOCK_LIMIT_MS,
            0 <= w <= COORD_LIMIT,
            0 <= h <= COORD_LIMIT,
            ppos.coords_bounded(),
        ensures
            final(self).wf(),
            final(self).kind == old(self).kind,
            final(self).cool == old(self).cool,
            final(self).pos.x == enemy_next_x(*old(self), ppos, t_ms as int, w as int, h as int, dt as int),
            final(self).pos.y == enemy_next_y(*old(self), ppos, t_ms as int, w as int, h as int, dt as int),
            final(self).angle == enemy_next_angle(*old(self), dt as int),
    {
        let dir: Vec2 = if self.kind == KIND_ORBITER {
            let cx: i64 = ((w as u64) / 2) as i64;
            let cy: i64 = ((h as u64) / 2) as i64;
            let pullx: i64 = mul_div(cx - self.pos.x, 1, 5);
            let pully: i64 = mul_div(cy - self.pos.y, 1, 5);
            let tn: u64 = t_ms as u64;
            let ax: i64 = ((tn * 17) / 10) as i64 + mul_div(self.pos.x, 1, 100);
            let ay: i64 = ((tn * 13) / 10) as i64 + mul_div(self.pos.y, 1, 100);
            let sx: i64 = pullx + cos_mrad(ax) * 120;
            let sy: i64 = pully + sin_mrad(ay) * 120;
            if sx == 0 && sy == 0 {
                Vec2 { x: 0, y: 0 }
            } else {
                unit_scaled(sx, sy)
            }
        } else if self.kind == KIND_CHASER {
            let dx: i64 = ppos.x - self.pos.x;
            let dy: i64 = ppos.y - self.pos.y;
            if dx == 0 && dy == 0 {
                Vec2 { x: 0, y: 0 }
            } else {
                unit_scaled(dx, dy)
            }
        } else {
            let tx: i64 = ppos.x + cos_mrad(self.angle) * 120 - self.pos.x;
            let ty: i64 = ppos.y + sin_mrad(self.angle) * 120 - self.pos.y;
            let d: Vec2 = if tx == 0 && ty == 0 {
                Vec2 { x: 0, y: 0 }
            } else {
                unit_scaled(tx, ty)
            };
            let turn: i64 = ((2500u64 * (dt as u64)) / 1000) as i64;
            self.angle = remu(self.angle + turn, TAU_MRAD);
            d
        };
        let sp: i64 = self.speed();
        proof {
            assert(0 <= sp * dt <= 174_000_000int) by (nonlinear_arith)
                requires 0 <= sp <= 174_000, 0 < dt <= 1000;
        }
        let m: i64 = sp * dt;
        proof {
            assert(-200_000_000_000 <= dir.x * (sp * dt) <= 200_000_000_000int) by (nonlinear_arith)
                requires
                    -1000 <= dir.x <= 1000,
                    0 <= sp * dt <= 174_000_000int,
            ;
            assert(-200_000_000_000 <= dir.y * (sp * dt) <= 200_000_000_000int) by (nonlinear_arith)
                requires
                    -1000 <= dir.y <= 1000,
                    0 <= sp * dt <= 174_000_000int,
            ;
        }
        let stepx: i64 = mul_div(dir.x, m, 1_000_000);
        let stepy: i64 = mul_div(dir.y, m, 1_000_000);
        self.pos = Vec2 { x: sat_coord(self.pos.x + stepx), y: sat_coord(self.pos.y + stepy) };
    }
}

#[derive(Clone, Copy)]
pub struct Shard {
    pub pos: Vec2,
    /// Cosmetic animation phase, in milliradians.
    pub phase: i64,
}

impl Shard {
    pub open spec fn wf(self) -> bool {
        &&& self.pos.coords_bounded()
        &&& 0 <= self.phase < TAU_MRAD
    }

    pub fn new(pos: Vec2, phase: i64) -> (s: Shard)
        requires
            pos.coords_bounded(),
            0 <= phase < TAU_MRAD,
        ensures
            s.wf(),
            s.pos == pos && s.phase == phase,
    {
        Shard { pos, phase }
    }
}

#[derive(Clone, Copy)]
pub struct Bullet {
    pub pos: Vec2,
    pub vel: Vec2,
    pub r: i64,
    pub hostile: bool,
    /// Remaining lifetime, in ms.
    pub life: i64,
}

impl Bullet {
    pub open spec fn wf(self) -> bool {
        &&& self.pos.coords_bounded()
        &&& self.vel.vel_bounded()
        &&& 0 < self.r <= 100_000
        &&& 0 < self.life <= 10_000
    }
}

#[derive(Clone, Copy, PartialEq, Eq, Structural, Debug)]
pub enum PowerKind {
    Invuln,
    Magnet,
    DoubleDash,
}

#[derive(Clone, Copy)]
pub struct PowerUp {
    pub pos: Vec2,
    pub kind: PowerKind,
    /// Cosmetic spin phase, in milliradians.
    pub spin: i64,
}

impl PowerUp {
    pub open spec fn wf(self) -> bool {
        &&& self.pos.coords_bounded()
        &&& 0 <= self.spin < TAU_MRAD
    }
}

#[derive(Clone, Copy)]
pub struct Boss {
    pub pos: Vec2,
    /// Countdown until the boss despawns with a reward, in ms.
    pub timer: i64,
    /// Phase accumulator driving oscillation and fire periods, in ms.
    pub phase: i64,
}

impl Boss {
    pub open spec fn wf(self) -> bool {
        &&& self.pos.coords_bounded()
        &&& 0 < self.timer <= BOSS_TIME_MS
        &&& 0 <= self.phase
        &&& self.phase + self.timer == BOSS_TIME_MS
    }
}

} // verus!
