//! The player controller: avatar motion, the dash charge state machine,
//! the invulnerability window, and the fading motion trail.

use vstd::prelude::*;
use crate::geom::{
    clamp64, clamp_spec, mul_div, qdiv, unit_comp_spec, unit_scaled, Vec2, COORD_LIMIT,
};
use crate::economy::floor0;

verus! {

/// Avatar radius in milli-pixels.
pub const PLAYER_RADIUS: i64 = 15_000;

/// Dash speed in milli-pixels per second.
pub const DASH_SPEED: i64 = 920_000;

/// Longest trail kept, in entries.
pub const TRAIL_MAX: usize = 42;

/// Fade time given to a fresh trail entry, in ms.
pub const TRAIL_FADE_MS: i64 = 350;

/// Player timers never exceed this many ms.
pub const PLAYER_TIMER_LIMIT: i64 = 1_000_000;

/// The four direction keys, sampled once per frame.
#[derive(Clone, Copy, PartialEq, Eq, Structural, Debug)]
pub struct MoveInput {
    pub left: bool,
    pub right: bool,
    pub up: bool,
    pub down: bool,
}

/// Raw axis intent, -1, 0 or 1.
pub open spec fn intent_x(i: MoveInput) -> int {
    (if i.right { 1int } else { 0int }) - (if i.left { 1int } else { 0int })
}

pub open spec fn intent_y(i: MoveInput) -> int {
    (if i.down { 1int } else { 0int }) - (if i.up { 1int } else { 0int })
}

/// Scaled move direction: axis moves have length 1000, diagonals are cut
/// to 707 per component so their length stays (almost exactly) 1000.
pub open spec fn dir_x(i: MoveInput) -> int {
    if intent_x(i) != 0 && intent_y(i) != 0 {
        intent_x(i) * 707
    } else {
        intent_x(i) * 1000
    }
}

pub open spec fn dir_y(i: MoveInput) -> int {
    if intent_x(i) != 0 && intent_y(i) != 0 {
        intent_y(i) * 707
    } else {
        intent_y(i) * 1000
    }
}

/// One entry of the motion trail.
#[derive(Clone, Copy, PartialEq, Eq, Structural, Debug)]
pub struct Trail {
    pub pos: Vec2,
    pub life: i64,
}

pub open spec fn trail_aged(t: Trail, dt: int) -> Trail {
    Trail { pos: t.pos, life: (t.life - dt) as i64 }
}

/// Ages every entry by `dt` and drops the ones that have faded out.
pub open spec fn decay_trail(s: Seq<Trail>, dt: int) -> Seq<Trail>
    decreases s.len(),
{
    if s.len() == 0 {
        Seq::empty()
    } else {
        let rest = decay_trail(s.drop_last(), dt);
        let t = trail_aged(s.last(), dt);
        if t.life > 0 {
            rest.push(t)
        } else {
            rest
        }
    }
}

/// One tick of the trail: append the new position, evict the oldest entry
/// past the cap, then age and cull.
pub open spec fn trail_step(s: Seq<Trail>, p: Vec2, dt: int) -> Seq<Trail> {
    let pushed = s.push(Trail { pos: p, life: TRAIL_FADE_MS });
    let trimmed = if pushed.len() > TRAIL_MAX {
        pushed.subrange(1, pushed.len() as int)
    } else {
        pushed
    };
    decay_trail(trimmed, dt)
}

/// The velocity a dash sets: the fixed dash speed along the current
/// heading, or straight rightward when the avatar stands still.
pub open spec fn dash_vel_spec(v: Vec2) -> Vec2 {
    if v.x == 0 && v.y == 0 {
        Vec2 { x: DASH_SPEED, y: 0 }
    } else {
        Vec2 {
            x: (unit_comp_spec(v.x as int, v.x as int, v.y as int) * 920) as i64,
            y: (unit_comp_spec(v.y as int, v.x as int, v.y as int) * 920) as i64,
        }
    }
}

/// The dash charge is a bounded resource: on any well-formed player the
/// charge count sits between zero and the current capacity.  `try_dash`
/// spends a charge only when one is in hand and no dash is running, so
/// the bound survives every tick.
pub proof fn lemma_dash_charges_bounded(p: Player)
    requires
        p.wf_core(),
    ensures
        0 <= p.dashes_left <= p.dashes_max,
{
}

/// Everything one player tick does, as a relation between the state
/// before and after: a running dash burns its timer while the velocity
/// persists; otherwise input steers and the cooldown runs and refills the
/// charge; the position integrates and clamps exactly to the playfield;
/// the invulnerability window runs down; the trail is appended and aged.
pub open spec fn player_tick_rel(
    pre: Player,
    post: Player,
    dt: int,
    move_speed: int,
    input: MoveInput,
    w: int,
    h: int,
) -> bool {
    &&& post.r == pre.r
    &&& post.dashes_max == pre.dashes_max
    &&& (pre.dash_t > 0 ==> {
        &&& post.vel == pre.vel
        &&& post.dash_t == floor0(pre.dash_t - dt)
        &&& post.dash_cd == pre.dash_cd
        &&& post.dashes_left == pre.dashes_left
    })
    &&& (pre.dash_t <= 0 ==> {
        &&& post.vel.x == qdiv(dir_x(input) * move_speed, 1000)
        &&& post.vel.y == qdiv(dir_y(input) * move_speed, 1000)
        &&& post.dash_t == 0
        &&& (if pre.dash_cd > 0 && pre.dash_cd - dt <= 0 {
            post.dashes_left == pre.dashes_max && post.dash_cd == 0
        } else if pre.dash_cd > 0 {
            post.dashes_left == pre.dashes_left && post.dash_cd == pre.dash_cd - dt
        } else {
            post.dashes_left == pre.dashes_left && post.dash_cd == 0
        })
    })
    &&& post.pos.x == clamp_spec(
        pre.pos.x + qdiv(post.vel.x * dt, 1000),
        PLAYER_RADIUS as int,
        w - PLAYER_RADIUS,
    )
    &&& post.pos.y == clamp_spec(
        pre.pos.y + qdiv(post.vel.y * dt, 1000),
        PLAYER_RADIUS as int,
        h - PLAYER_RADIUS,
    )
    &&& post.invuln == floor0(pre.invuln - dt)
    &&& post.trail@ == trail_step(pre.trail@, post.pos, dt)
}

pub struct Player {
    pub pos: Vec2,
    pub vel: Vec2,
    /// Avatar radius; constant.
    pub r: i64,
    /// Cooldown left until the dash charge refills, in ms.
    pub dash_cd: i64,
    /// Time the current dash still runs, in ms; 0 when not dashing.
    pub dash_t: i64,
    /// Invulnerability window left, in ms.
    pub invuln: i64,
    /// Dash charges in hand.
    pub dashes_left: i32,
    /// Charge capacity; 2 while the extra-dash buff runs, else 1.
    pub dashes_max: i32,
    pub trail: Vec<Trail>,
}

impl Player {
    /// Everything but the playfield bound on the position.
    pub open spec fn wf_core(self) -> bool {
        &&& self.r == PLAYER_RADIUS
        &&& self.vel.vel_bounded()
        &&& 0 <= self.dash_cd <= PLAYER_TIMER_LIMIT
        &&& 0 <= self.dash_t <= PLAYER_TIMER_LIMIT
        &&& 0 <= self.invuln <= PLAYER_TIMER_LIMIT
        &&& 0 <= self.dashes_left <= self.dashes_max
        &&& 1 <= self.dashes_max <= 2
        &&& self.trail.len() <= TRAIL_MAX
        &&& forall|j: int|
            0 <= j < self.trail.len() ==> {
                &&& 0 < (#[trigger] self.trail[j]).life <= TRAIL_FADE_MS
                &&& self.trail[j].pos.coords_bounded()
            }
    }

    /// The avatar sits inside the playfield, inset by its radius.
    pub open spec fn pos_in(self, w: int, h: int) -> bool {
        &&& PLAYER_RADIUS <= self.pos.x <= w - PLAYER_RADIUS
        &&& PLAYER_RADIUS <= self.pos.y <= h - PLAYER_RADIUS
    }

    pub open spec fn wf(self, w: int, h: int) -> bool {
        self.wf_core() && self.pos_in(w, h)
    }

    pub open spec fn is_dashing_spec(self) -> bool {
        self.dash_t > 0
    }

    pub open spec fn is_invulnerable_spec(self) -> bool {
        self.invuln > 0
    }

    pub fn new(w: i64, h: i64) -> (p: Player)
        requires
            2 * PLAYER_RADIUS <= w <= COORD_LIMIT,
            2 * PLAYER_RADIUS <= h <= COORD_LIMIT,
        ensures
            p.wf(w as int, h as int),
            p.pos.x == w / 2 && p.pos.y == h / 2,
            p.vel.x == 0 && p.vel.y == 0,
            p.dash_cd == 0 && p.dash_t == 0 && p.invuln == 0,
            p.dashes_left == 1 && p.dashes_max == 1,
            p.trail@ == Seq::<Trail>::empty(),
    {
        let cx: i64 = ((w as u64) / 2) as i64;
        let cy: i64 = ((h as u64) / 2) as i64;
        Player {
            pos: Vec2 { x: cx, y: cy },
            vel: Vec2 { x: 0, y: 0 },
            r: PLAYER_RADIUS,
            dash_cd: 0,
            dash_t: 0,
            invuln: 0,
            dashes_left: 1,
            dashes_max: 1,
            trail: Vec::new(),
        }
    }

    pub fn is_dashing(&self) -> (r: bool)
        ensures
            r == self.is_dashing_spec(),
    {
        self.dash_t > 0
    }

    /// One tick: dash or steer, run the dash cooldown, integrate and clamp
    /// the position, run the invulnerability window down, age the trail.
    pub fn update(&mut self, dt: i64, move_speed: i64, input: MoveInput, w: i64, h: i64)
        requires
            old(self).wf(w as int, h as int),
            0 < dt <= 1000,
            0 <= move_speed <= 600_000_000,
            2 * PLAYER_RADIUS <= w <= COORD_LIMIT,
            2 * PLAYER_RADIUS <= h <= COORD_LIMIT,
        ensures
            final(self).wf(w as int, h as int),
            player_tick_rel(
                *old(self),
                *final(self),
                dt as int,
                move_speed as int,
                input,
                w as int,
                h as int,
            ),
    {
        if self.dash_t > 0 {
            let nt: i64 = self.dash_t - dt;
            self.dash_t = if nt < 0 { 0 } else { nt };
        } else {
            self.dash_t = 0;
            let ix: i64 = (if input.right { 1 } else { 0 }) - (if input.left { 1 } else { 0 });
            let iy: i64 = (if input.down { 1 } else { 0 }) - (if input.up { 1 } else { 0 });
            let dx: i64 = if ix != 0 && iy != 0 { ix * 707 } else { ix * 1000 };
            let dy: i64 = if ix != 0 && iy != 0 { iy * 707 } else { iy * 1000 };
            proof {
                assert(-600_000_000_000 <= dx * move_speed <= 600_000_000_000int) by (nonlinear_arith)
                    requires -1000 <= dx <= 1000, 0 <= move_speed <= 600_000_000int;
                assert(-600_000_000_000 <= dy * move_speed <= 600_000_000_000int) by (nonlinear_arith)
                    requires -1000 <= dy <= 1000, 0 <= move_speed <= 600_000_000int;
            }
            let vx: i64 = mul_div(dx, move_speed, 1000);
            let vy: i64 = mul_div(dy, move_speed, 1000);
            self.vel = Vec2 { x: vx, y: vy };
            if self.dash_cd > 0 {
                let ncd: i64 = self.dash_cd - dt;
                if ncd <= 0 {
                    self.dashes_left = self.dashes_max;
                    self.dash_cd = 0;
                } else {
                    self.dash_cd = ncd;
                }
            }
        }
        proof {
            assert(-1_000_000_000_000 <= self.vel.x * dt <= 1_000_000_000_000int) by (nonlinear_arith)
                requires -1_000_000_000 <= self.vel.x <= 1_000_000_000int, 0 < dt <= 1000;
            assert(-1_000_000_000_000 <= self.vel.y * dt <= 1_000_000_000_000int) by (nonlinear_arith)
                requires -1_000_000_000 <= self.vel.y <= 1_000_000_000int, 0 < dt <= 1000;
        }
        let sx: i64 = mul_div(self.vel.x, dt, 1000);
        let sy: i64 = mul_div(self.vel.y, dt, 1000);
        self.pos = Vec2 {
            x: clamp64(self.pos.x + sx, PLAYER_RADIUS, w - PLAYER_RADIUS),
            y: clamp64(self.pos.y + sy, PLAYER_RADIUS, h - PLAYER_RADIUS),
        };
        let ni: i64 = self.invuln - dt;
        self.invuln = if ni < 0 { 0 } else { ni };
        self.step_trail(dt);
    }

    /// Appends the current position and ages the whole trail.
    fn step_trail(&mut self, dt: i64)
        requires
            0 < dt <= 1000,
            old(self).trail.len() <= TRAIL_MAX,
            old(self).pos.coords_bounded(),
            forall|j: int|
                0 <= j < old(self).trail.len() ==> {
                    &&& 0 < (#[trigger] old(self).trail[j]).life <= TRAIL_FADE_MS
                    &&& old(self).trail[j].pos.coords_bounded()
                },
        ensures
            final(self).trail@ == trail_step(old(self).trail@, old(self).pos, dt as int),
            final(self).trail.len() <= TRAIL_MAX,
            forall|j: int|
                0 <= j < final(self).trail.len() ==> {
                    &&& 0 < (#[trigger] final(self).trail[j]).life <= TRAIL_FADE_MS
                    &&& final(self).trail[j].pos.coords_bounded()
                },
            final(self).pos == old(self).pos,
            final(self).vel == old(self).vel,
            final(self).r == old(self).r,
            final(self).dash_cd == old(self).dash_cd,
            final(self).dash_t == old(self).dash_t,
            final(self).invuln == old(self).invuln,
            final(self).dashes_left == old(self).dashes_left,
            final(self).dashes_max == old(self).dashes_max,
    {
        self.trail.push(Trail { pos: self.pos, life: TRAIL_FADE_MS });
        if self.trail.len() > TRAIL_MAX {
            self.trail.remove(0);
        }
        let ghost trimmed = self.trail@;
        proof {
            assert(trimmed == (if old(self).trail@.push(
                Trail { pos: old(self).pos, life: TRAIL_FADE_MS },
            ).len() > TRAIL_MAX {
                old(self).trail@.push(Trail { pos: old(self).pos, life: TRAIL_FADE_MS }).subrange(
                    1,
                    old(self).trail@.push(Trail { pos: old(self).pos, life: TRAIL_FADE_MS }).len() as int,
                )
            } else {
                old(self).trail@.push(Trail { pos: old(self).pos, life: TRAIL_FADE_MS })
            }));
        }
        let mut kept: Vec<Trail> = Vec::new();
        let mut j: usize = 0;
        while j < self.trail.len()
            invariant
                j <= self.trail.len(),
                self.trail@ == trimmed,
                trimmed.len() <= TRAIL_MAX + 1,
                0 < dt <= 1000,
                forall|k: int|
                    0 <= k < trimmed.len() ==> {
                        &&& 0 < (#[trigger] trimmed[k]).life <= TRAIL_FADE_MS
                        &&& trimmed[k].pos.coords_bounded()
                    },
                kept@ == decay_trail(trimmed.subrange(0, j as int), dt as int),
                kept.len() <= j,
                forall|k: int|
                    0 <= k < kept.len() ==> {
                        &&& 0 < (#[trigger] kept[k]).life <= TRAIL_FADE_MS
                        &&& kept[k].pos.coords_bounded()
                    },
            decreases self.trail.len() - j,
        {
            let t: Trail = self.trail[j];
            let nl: i64 = t.life - dt;
            proof {
                assert(trimmed.subrange(0, j + 1).drop_last() =~= trimmed.subrange(0, j as int));
                assert(trimmed.subrange(0, j + 1).last() == trimmed[j as int]);
            }
            if nl > 0 {
                kept.push(Trail { pos: t.pos, life: nl });
            }
            j = j + 1;
        }
        proof {
            assert(trimmed.subrange(0, trimmed.len() as int) =~= trimmed);
        }
        self.trail = kept;
    }

    /// Fires a dash if a charge is in hand and none is already running:
    /// fixed dash speed along the current heading (rightward at rest), the
    /// dash window doubles as invulnerability, and spending the last charge
    /// starts the cooldown.  Returns whether the dash fired.
    pub fn try_dash(&mut self, dash_time: i64, dash_cd_total: i64) -> (ok: bool)
        requires
            old(self).wf_core(),
            0 <= dash_time <= PLAYER_TIMER_LIMIT,
            0 <= dash_cd_total <= PLAYER_TIMER_LIMIT,
        ensures
            final(self).wf_core(),
            ok == (old(self).dashes_left > 0 && old(self).dash_t <= 0),
            !ok ==> *final(self) == *old(self),
            ok ==> {
                &&& final(self).vel == dash_vel_spec(old(self).vel)
                &&& final(self).dash_t == dash_time
                &&& final(self).invuln == dash_time
                &&& final(self).dashes_left == old(self).dashes_left - 1
                &&& final(self).dash_cd == (if old(self).dashes_left == 1 {
                    dash_cd_total
                } else {
                    old(self).dash_cd
                })
                &&& final(self).pos == old(self).pos
                &&& final(self).trail == old(self).trail
                &&& final(self).r == old(self).r
                &&& final(self).dashes_max == old(self).dashes_max
            },
    {
        if self.dashes_left > 0 && !(self.dash_t > 0) {
            let dir: Vec2 = if self.vel.x == 0 && self.vel.y == 0 {
                Vec2 { x: 1000, y: 0 }
            } else {
                unit_scaled(self.vel.x, self.vel.y)
            };
            self.vel = Vec2 { x: dir.x * 920, y: dir.y * 920 };
            self.dash_t = dash_time;
            self.invuln = dash_time;
            self.dashes_left = self.dashes_left - 1;
            if self.dashes_left == 0 {
                self.dash_cd = dash_cd_total;
            }
            true
        } else {
            false
        }
    }
}

} // verus!
