//! Transient visual effects: particles that drift, shrink and fade, and
//! floating text labels.  They carry no gameplay weight, but their
//! lifetimes run through the same per-tick decay-and-cull pass as the
//! gameplay timers, so they are modeled and verified the same way.

use vstd::prelude::*;
use crate::economy::floor0;
use crate::geom::{clamp_spec, qdiv, Vec2, COORD_LIMIT};
use crate::upgrades::UpgradeKind;

verus! {

/// Particles never live longer than this, in ms.
pub const PARTICLE_LIFE_LIMIT_MS: i64 = 1500;

/// Particles never start larger than this, in milli-pixels.
pub const PARTICLE_SIZE_LIMIT: i64 = 12_000;

/// Particles shrink 18 pixels per second.
pub const PARTICLE_SHRINK: i64 = 18;

/// Text effects never live longer than this, in ms.
pub const TEXTFX_LIFE_LIMIT_MS: i64 = 2000;

#[derive(Clone, Copy)]
pub struct Particle {
    pub pos: Vec2,
    pub vel: Vec2,
    /// Remaining lifetime, in ms.
    pub life: i64,
    /// Current radius, in milli-pixels.
    pub size: i64,
}

impl Particle {
    pub open spec fn wf(self) -> bool {
        &&& self.pos.coords_bounded()
        &&& self.vel.vel_bounded()
        &&& 0 < self.life <= PARTICLE_LIFE_LIMIT_MS
        &&& 0 < self.size <= PARTICLE_SIZE_LIMIT
    }
}

/// What the tick's labels say.  Rendering turns these into text; the
/// simulation only tracks which label was emitted and any number on it.
#[derive(Clone, Copy, PartialEq, Eq, Structural, Debug)]
pub enum Label {
    NearMiss,
    BossArrived,
    BossCleared,
    InvulnPickup,
    MagnetPickup,
    DoubleDashPickup,
    ShardBonus(i64),
    Purchase(UpgradeKind),
}

#[derive(Clone, Copy)]
pub struct TextFx {
    pub pos: Vec2,
    pub vel: Vec2,
    /// Remaining lifetime, in ms.
    pub life: i64,
    pub label: Label,
}

impl TextFx {
    pub open spec fn wf(self) -> bool {
        &&& self.pos.coords_bounded()
        &&& self.vel.vel_bounded()
        &&& 0 < self.life <= TEXTFX_LIFE_LIMIT_MS
    }
}

/// One tick of a particle: drift, burn lifetime, shrink.
pub open spec fn particle_step(p: Particle, dt: int) -> Particle {
    Particle {
        pos: Vec2 {
            x: clamp_spec(p.pos.x + qdiv(p.vel.x * dt, 1000), -COORD_LIMIT as int, COORD_LIMIT as int) as i64,
            y: clamp_spec(p.pos.y + qdiv(p.vel.y * dt, 1000), -COORD_LIMIT as int, COORD_LIMIT as int) as i64,
        },
        vel: p.vel,
        life: (p.life - dt) as i64,
        size: floor0(p.size - PARTICLE_SHRINK * dt) as i64,
    }
}

pub open spec fn particle_alive(p: Particle) -> bool {
    p.life > 0 && p.size > 0
}

/// Steps every particle and keeps only the live ones.
pub open spec fn decay_particles(s: Seq<Particle>, dt: int) -> Seq<Particle>
    decreases s.len(),
{
    if s.len() == 0 {
        Seq::empty()
    } else {
        let rest = decay_particles(s.drop_last(), dt);
        let p = particle_step(s.last(), dt);
        if particle_alive(p) {
            rest.push(p)
        } else {
            rest
        }
    }
}

/// One tick of a text label: drift and burn lifetime.
pub open spec fn textfx_step(t: TextFx, dt: int) -> TextFx {
    TextFx {
        pos: Vec2 {
            x: clamp_spec(t.pos.x + qdiv(t.vel.x * dt, 1000), -COORD_LIMIT as int, COORD_LIMIT as int) as i64,
            y: clamp_spec(t.pos.y + qdiv(t.vel.y * dt, 1000), -COORD_LIMIT as int, COORD_LIMIT as int) as i64,
        },
        vel: t.vel,
        life: (t.life - dt) as i64,
        label: t.label,
    }
}

pub open spec fn textfx_alive(t: TextFx) -> bool {
    t.life > 0
}

/// Steps every text label and keeps only the live ones.
pub open spec fn decay_textfx(s: Seq<TextFx>, dt: int) -> Seq<TextFx>
    decreases s.len(),
{
    if s.len() == 0 {
        Seq::empty()
    } else {
        let rest = decay_textfx(s.drop_last(), dt);
        let t = textfx_step(s.last(), dt);
        if textfx_alive(t) {
            rest.push(t)
        } else {
            rest
        }
    }
}

/// A particle whose lifetime has already run out is not alive after a
/// decay step either: decay can only remove it, never revive it.
pub proof fn lemma_expired_particle_stays_dead(p: Particle, dt: int)
    requires
        p.life <= 0 || p.size <= 0,
        0 < dt <= 1000,
        -1_000_000_000 <= p.life,
        -1_000_000_000 <= p.size,
    ensures
        !particle_alive(particle_step(p, dt)),
{
}

/// Every particle the decay pass keeps was alive before the pass: entry
/// `j` of the output traces back to a live input entry (the returned
/// index).  The pass never resurrects an expired particle.
pub proof fn lemma_decay_keeps_only_live(s: Seq<Particle>, dt: int, j: int) -> (i: int)
    requires
        0 < dt <= 1000,
        forall|k: int|
            0 <= k < s.len() ==> -1_000_000_000 <= (#[trigger] s[k]).life <= 1_000_000_000
                && -1_000_000_000 <= s[k].size <= 1_000_000_000,
        0 <= j < decay_particles(s, dt).len(),
    ensures
        0 <= i < s.len(),
        particle_alive(s[i]),
        decay_particles(s, dt)[j] == particle_step(s[i], dt),
    decreases s.len(),
{
    assert(s.len() > 0);
    let rest = decay_particles(s.drop_last(), dt);
    let p = particle_step(s.last(), dt);
    if j < rest.len() {
        assert forall|k: int| 0 <= k < s.drop_last().len() implies -1_000_000_000 <= (
        #[trigger] s.drop_last()[k]).life <= 1_000_000_000 && -1_000_000_000
            <= s.drop_last()[k].size <= 1_000_000_000 by {
            assert(s.drop_last()[k] == s[k]);
        }
        let i = lemma_decay_keeps_only_live(s.drop_last(), dt, j);
        assert(s.drop_last()[i] == s[i]);
        i
    } else {
        assert(particle_alive(p));
        assert(s[s.len() - 1] == s.last());
        assert(s.last().life > 0 && s.last().size > 0);
        s.len() - 1
    }
}

/// Runs the particle pool one tick forward, in place.
pub fn decay_particles_vec(v: &mut Vec<Particle>, dt: i64)
    requires
        0 < dt <= 1000,
        forall|k: int| 0 <= k < old(v).len() ==> (#[trigger] old(v)[k]).wf(),
    ensures
        final(v)@ == decay_particles(old(v)@, dt as int),
        final(v).len() <= old(v).len(),
        forall|k: int| 0 <= k < final(v).len() ==> (#[trigger] final(v)[k]).wf(),
{
    let ghost orig = v@;
    let mut kept: Vec<Particle> = Vec::new();
    let mut j: usize = 0;
    while j < v.len()
        invariant
            j <= v.len(),
            v@ == orig,
            0 < dt <= 1000,
            forall|k: int| 0 <= k < orig.len() ==> (#[trigger] orig[k]).wf(),
            kept@ == decay_particles(orig.subrange(0, j as int), dt as int),
            kept.len() <= j,
            forall|k: int| 0 <= k < kept.len() ==> (#[trigger] kept[k]).wf(),
        decreases v.len() - j,
    {
        let p: Particle = Particle {
            pos: v[j].pos,
            vel: v[j].vel,
            life: v[j].life,
            size: v[j].size,
        };
        proof {
            assert(-1_000_000_000_000 <= p.vel.x * dt <= 1_000_000_000_000int) by (nonlinear_arith)
                requires -1_000_000_000 <= p.vel.x <= 1_000_000_000int, 0 < dt <= 1000;
            assert(-1_000_000_000_000 <= p.vel.y * dt <= 1_000_000_000_000int) by (nonlinear_arith)
                requires -1_000_000_000 <= p.vel.y <= 1_000_000_000int, 0 < dt <= 1000;
            assert(orig.subrange(0, j + 1).drop_last() =~= orig.subrange(0, j as int));
            assert(orig.subrange(0, j + 1).last() == orig[j as int]);
        }
        let sx: i64 = crate::geom::mul_div(p.vel.x, dt, 1000);
        let sy: i64 = crate::geom::mul_div(p.vel.y, dt, 1000);
        let nx: i64 = crate::geom::sat_coord(p.pos.x + sx);
        let ny: i64 = crate::geom::sat_coord(p.pos.y + sy);
        let nl: i64 = p.life - dt;
        let raw_size: i64 = p.size - PARTICLE_SHRINK * dt;
        let ns: i64 = if raw_size < 0 { 0 } else { raw_size };
        let np: Particle = Particle { pos: Vec2 { x: nx, y: ny }, vel: p.vel, life: nl, size: ns };
        proof {
            assert(np == particle_step(orig[j as int], dt as int));
        }
        if nl > 0 && ns > 0 {
            kept.push(np);
        }
        j = j + 1;
    }
    proof {
        assert(orig.subrange(0, orig.len() as int) =~= orig);
    }
    *v = kept;
}

/// Runs the text-effect pool one tick forward, in place.
pub fn decay_textfx_vec(v: &mut Vec<TextFx>, dt: i64)
    requires
        0 < dt <= 1000,
        forall|k: int| 0 <= k < old(v).len() ==> (#[trigger] old(v)[k]).wf(),
    ensures
        final(v)@ == decay_textfx(old(v)@, dt as int),
        final(v).len() <= old(v).len(),
        forall|k: int| 0 <= k < final(v).len() ==> (#[trigger] final(v)[k]).wf(),
{
    let ghost orig = v@;
    let mut kept: Vec<TextFx> = Vec::new();
    let mut j: usize = 0;
    while j < v.len()
        invariant
            j <= v.len(),
            v@ == orig,
            0 < dt <= 1000,
            forall|k: int| 0 <= k < orig.len() ==> (#[trigger] orig[k]).wf(),
            kept@ == decay_textfx(orig.subrange(0, j as int), dt as int),
            kept.len() <= j,
            forall|k: int| 0 <= k < kept.len() ==> (#[trigger] kept[k]).wf(),
        decreases v.len() - j,
    {
        let t: TextFx = TextFx {
            pos: v[j].pos,
            vel: v[j].vel,
            life: v[j].life,
            label: v[j].label,
        };
        proof {
            assert(-1_000_000_000_000 <= t.vel.x * dt <= 1_000_000_000_000int) by (nonlinear_arith)
                requires -1_000_000_000 <= t.vel.x <= 1_000_000_000int, 0 < dt <= 1000;
            assert(-1_000_000_000_000 <= t.vel.y * dt <= 1_000_000_000_000int) by (nonlinear_arith)
                requires -1_000_000_000 <= t.vel.y <= 1_000_000_000int, 0 < dt <= 1000;
            assert(orig.subrange(0, j + 1).drop_last() =~= orig.subrange(0, j as int));
            assert(orig.subrange(0, j + 1).last() == orig[j as int]);
        }
        let sx: i64 = crate::geom::mul_div(t.vel.x, dt, 1000);
        let sy: i64 = crate::geom::mul_div(t.vel.y, dt, 1000);
        let nx: i64 = crate::geom::sat_coord(t.pos.x + sx);
        let ny: i64 = crate::geom::sat_coord(t.pos.y + sy);
        let nl: i64 = t.life - dt;
        let nt: TextFx = TextFx { pos: Vec2 { x: nx, y: ny }, vel: t.vel, life: nl, label: t.label };
        proof {
            assert(nt == textfx_step(orig[j as int], dt as int));
        }
        if nl > 0 {
            kept.push(nt);
        }
        j = j + 1;
    }
    proof {
        assert(orig.subrange(0, orig.len() as int) =~= orig);
    }
    *v = kept;
}

} // verus!
