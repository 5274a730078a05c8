//! Score, currency, best score, and the time-decaying combo
//! multiplier-increment (kept in tenths: a stored 5 reads as +0.5 on the
//! nominal 1.0 multiplier).

use vstd::prelude::*;

verus! {

/// Score and best score saturate here; far beyond any reachable play.
pub const SCORE_CAP: i64 = 1_000_000_000_000;

/// Currency saturates here.
pub const CURRENCY_CAP: i64 = 1_000_000_000_000;

/// The combo multiplier-increment saturates here (in tenths).
pub const COMBO_CAP: i64 = 1_000_000_000;

/// Window that each reward re-arms before the combo starts decaying, in ms.
pub const COMBO_TIME_MS: i64 = 2200;

/// Tenths added to the combo by every reward event.
pub const COMBO_INC_TENTHS: i64 = 1;

/// Tenths removed from the combo when its timer runs out.
pub const COMBO_DECAY_TENTHS: i64 = 5;

/// `v`, saturated from above at `cap`.
pub open spec fn capped(v: int, cap: int) -> int {
    if v > cap {
        cap
    } else {
        v
    }
}

/// `v`, floored from below at zero.
pub open spec fn floor0(v: int) -> int {
    if v < 0 {
        0
    } else {
        v
    }
}

#[derive(Clone, Copy, PartialEq, Eq, Structural, Debug)]
pub struct Economy {
    /// Round score; reset when a round starts.
    pub score: i64,
    /// Persistent currency; a loaded save may carry a negative balance.
    pub currency: i64,
    /// Highest score ever reached.
    pub best: i64,
    /// Combo multiplier-increment, in tenths.
    pub combo: i64,
    /// Remaining decay window of the combo, in ms; 0 when disarmed.
    pub combo_t: i64,
}

/// The economy after one tick of combo decay: the window runs down by
/// `dt`; when it closes the combo loses one decay step, floored at zero,
/// and the timer disarms.
pub open spec fn eco_decayed(e: Economy, dt: int) -> Economy {
    Economy {
        combo: (if e.combo_t > 0 && e.combo_t - dt <= 0 {
            floor0(e.combo - COMBO_DECAY_TENTHS)
        } else {
            e.combo as int
        }) as i64,
        combo_t: (if e.combo_t > 0 && e.combo_t - dt > 0 {
            e.combo_t - dt
        } else {
            0int
        }) as i64,
        ..e
    }
}

/// The combo multiplier-increment is never negative: every well-formed
/// economy keeps it at zero or above, `bump_score` only raises it, and
/// `decay_tick` never drops it below zero.
pub proof fn lemma_combo_nonnegative(e: Economy)
    requires
        e.wf(),
    ensures
        e.combo >= 0,
{
}

impl Economy {
    pub open spec fn wf(self) -> bool {
        &&& 0 <= self.score <= SCORE_CAP
        &&& -CURRENCY_CAP <= self.currency <= CURRENCY_CAP
        &&& 0 <= self.best <= SCORE_CAP
        &&& 0 <= self.combo <= COMBO_CAP
        &&& 0 <= self.combo_t <= COMBO_TIME_MS
    }

    pub fn new() -> (e: Economy)
        ensures
            e.wf(),
            e.score == 0 && e.currency == 0 && e.best == 0,
            e.combo == 0 && e.combo_t == 0,
    {
        Economy { score: 0, currency: 0, best: 0, combo: 0, combo_t: 0 }
    }

    /// The sole entry point of every score reward: adds `base` and grows the
    /// combo by one step while re-arming its decay window.
    pub fn bump_score(&mut self, base: i64)
        requires
            old(self).wf(),
            0 <= base <= SCORE_CAP,
        ensures
            final(self).wf(),
            final(self).score == capped(old(self).score + base, SCORE_CAP as int),
            final(self).combo == capped(old(self).combo + COMBO_INC_TENTHS, COMBO_CAP as int),
            final(self).combo_t == COMBO_TIME_MS,
            final(self).currency == old(self).currency,
            final(self).best == old(self).best,
            final(self).combo >= old(self).combo,
            old(self).combo < COMBO_CAP ==> final(self).combo > old(self).combo,
    {
        let ns: i64 = self.score + base;
        self.score = if ns > SCORE_CAP { SCORE_CAP } else { ns };
        let nc: i64 = self.combo + COMBO_INC_TENTHS;
        self.combo = if nc > COMBO_CAP { COMBO_CAP } else { nc };
        self.combo_t = COMBO_TIME_MS;
    }

    /// Adds currency, saturating at the cap.
    pub fn add_currency(&mut self, amount: i64)
        requires
            old(self).wf(),
            0 <= amount <= CURRENCY_CAP,
        ensures
            final(self).wf(),
            final(self).currency == capped(old(self).currency + amount, CURRENCY_CAP as int),
            *final(self) == (Economy { currency: final(self).currency, ..*old(self) }),
    {
        let nc: i64 = self.currency + amount;
        self.currency = if nc > CURRENCY_CAP { CURRENCY_CAP } else { nc };
    }

    /// One tick of combo decay: runs the window down and, when it closes,
    /// takes one decay step off the combo and disarms the timer.  Never
    /// raises the combo.
    pub fn decay_tick(&mut self, dt: i64)
        requires
            old(self).wf(),
            0 < dt <= 1000,
        ensures
            final(self).wf(),
            *final(self) == eco_decayed(*old(self), dt as int),
            final(self).combo <= old(self).combo,
            final(self).score == old(self).score,
            final(self).currency == old(self).currency,
            final(self).best == old(self).best,
    {
        if self.combo_t > 0 {
            let nt: i64 = self.combo_t - dt;
            if nt <= 0 {
                let nc: i64 = self.combo - COMBO_DECAY_TENTHS;
                self.combo = if nc < 0 { 0 } else { nc };
                self.combo_t = 0;
            } else {
                self.combo_t = nt;
            }
        }
    }

    /// Score bump a shard is worth: 5 times the current multiplier, rounded
    /// toward zero (a combo of five tenths gives 7).
    pub fn shard_bonus(&self) -> (r: i64)
        requires
            self.wf(),
        ensures
            r == (50 + 5 * self.combo) / 10,
            0 <= r <= SCORE_CAP,
    {
        let raw: i64 = 50 + 5 * self.combo;
        ((raw as u64) / 10) as i64
    }

    /// A flat award outside the combo system: score and currency move,
    /// the combo and its timer do not.
    pub fn award_flat(&mut self, score_add: i64, currency_add: i64)
        requires
            old(self).wf(),
            0 <= score_add <= 1000,
            0 <= currency_add <= 1000,
        ensures
            final(self).wf(),
            final(self).score == capped(old(self).score + score_add, SCORE_CAP as int),
            final(self).currency == capped(old(self).currency + currency_add, CURRENCY_CAP as int),
            final(self).best == old(self).best,
            final(self).combo == old(self).combo,
            final(self).combo_t == old(self).combo_t,
    {
        let ns: i64 = self.score + score_add;
        self.score = if ns > SCORE_CAP { SCORE_CAP } else { ns };
        let nc: i64 = self.currency + currency_add;
        self.currency = if nc > CURRENCY_CAP { CURRENCY_CAP } else { nc };
    }

    /// Records the round score into the best score.
    pub fn note_best(&mut self)
        requires
            old(self).wf(),
        ensures
            final(self).wf(),
            final(self).best == (if old(self).score > old(self).best {
                old(self).score
            } else {
                old(self).best
            }),
            *final(self) == (Economy { best: final(self).best, ..*old(self) }),
    {
        if self.score > self.best {
            self.best = self.score;
        }
    }
}

} // verus!
