use vstd::prelude::*;
use crate::physics::MAX_STEP_MS;

verus! {

/// Lives given by a reset.
pub const START_LIVES: u32 = 3;

/// Milliseconds between two periodic asteroid spawns.
pub const SPAWN_PERIOD_MS: i64 = 2000;

/// Lives, score and the counters that pace the simulation.
#[derive(Debug, Clone, Copy, PartialEq, Eq, Structural)]
pub struct GameState {
    pub lives: u32,
    pub score: u64,
    pub high_score: u64,
    /// Frames for which the simulation stays suspended.
    pub hitstun: u64,
    /// Set by damage: the non-player collidables of the current snapshot are swept.
    pub clear_screen: bool,
    /// Milliseconds until the next periodic asteroid spawn.
    pub asteroid_cooldown: i64,
}

pub open spec fn saturated(v: int) -> u64 {
    if v > u64::MAX as int { u64::MAX } else { v as u64 }
}

/// Hitstun frames added by a damaging hit that leaves `lives` lives.
pub open spec fn stun_for(lives: int) -> int {
    64int / (1 + lives)
}

/// The game state after the player takes a hit.
pub open spec fn after_damage(g: GameState) -> GameState {
    let lives: u32 = if g.lives > 0 { (g.lives - 1) as u32 } else { 0 };
    GameState {
        lives,
        hitstun: saturated(g.hitstun + stun_for(lives as int)),
        clear_screen: true,
        ..g
    }
}

/// The game state after one point is scored.
pub open spec fn after_score(g: GameState) -> GameState {
    let score = saturated(g.score + 1);
    GameState { score, high_score: if g.high_score >= score { g.high_score } else { score }, ..g }
}

impl GameState {
    pub open spec fn wf(&self) -> bool {
        -MAX_STEP_MS <= self.asteroid_cooldown <= SPAWN_PERIOD_MS
    }

    /// A game before the first reset: no lives, no score, nothing pending.
    pub open spec fn new_spec() -> GameState {
        GameState { lives: 0, score: 0, high_score: 0, hitstun: 0, clear_screen: false, asteroid_cooldown: 0 }
    }

    /// A game before the first reset: no lives, no score, nothing pending.
    pub fn new() -> (r: GameState)
        ensures
            r == GameState::new_spec(),
            r.wf(),
    {
        GameState { lives: 0, score: 0, high_score: 0, hitstun: 0, clear_screen: false, asteroid_cooldown: 0 }
    }

    /// The player takes a hit: one life is lost (none below zero), hitstun grows by
    /// 64 / (1 + remaining lives), and the screen is set to be cleared. Returns whether the
    /// player has no lives left.
    pub fn damage(&mut self) -> (out: bool)
        ensures
            *final(self) == after_damage(*old(self)),
            out == (final(self).lives == 0),
    {
        if self.lives > 0 {
            self.lives = self.lives - 1;
        }
        let stun: u64 = 64 / (1 + self.lives as u64);
        self.hitstun = self.hitstun.saturating_add(stun);
        self.clear_screen = true;
        self.lives == 0
    }

    /// One point scored; the high score follows the score.
    pub fn score_point(&mut self)
        ensures
            *final(self) == after_score(*old(self)),
    {
        self.score = self.score.saturating_add(1);
        if self.score > self.high_score {
            self.high_score = self.score;
        }
    }

    /// A new game: the high score keeps the best score so far, the score restarts and
    /// the lives are refilled.
    pub fn reset(&mut self)
        ensures
            final(self).high_score == if old(self).high_score >= old(self).score {
                old(self).high_score
            } else {
                old(self).score
            },
            final(self).score == 0,
            final(self).lives == START_LIVES,
            final(self).hitstun == old(self).hitstun,
            final(self).clear_screen == old(self).clear_screen,
            final(self).asteroid_cooldown == old(self).asteroid_cooldown,
    {
        if self.score > self.high_score {
            self.high_score = self.score;
        }
        self.score = 0;
        self.lives = START_LIVES;
    }

    /// Decides whether this frame runs the simulation: it does when hitstun is zero;
    /// otherwise hitstun counts down by one and the frame is skipped.
    pub fn frame_runs(&mut self) -> (runs: bool)
        ensures
            runs == (old(self).hitstun == 0),
            final(self).hitstun == if runs { 0 } else { (old(self).hitstun - 1) as u64 },
            *final(self) == (GameState { hitstun: final(self).hitstun, ..*old(self) }),
    {
        if self.hitstun == 0 {
            true
        } else {
            self.hitstun = self.hitstun - 1;
            false
        }
    }

    /// Advances the spawn cooldown by `dt` milliseconds; returns whether an asteroid is due,
    /// in which case the cooldown restarts first.
    pub fn spawn_due(&mut self, dt: i64) -> (due: bool)
        requires
            old(self).wf(),
            0 <= dt <= MAX_STEP_MS,
        ensures
            due == (old(self).asteroid_cooldown <= 0),
            final(self).asteroid_cooldown == (if due { SPAWN_PERIOD_MS as int } else {
                old(self).asteroid_cooldown as int
            }) - dt,
            final(self).wf(),
            *final(self) == (GameState { asteroid_cooldown: final(self).asteroid_cooldown, ..*old(self) }),
    {
        let due = self.asteroid_cooldown <= 0;
        if due {
            self.asteroid_cooldown = SPAWN_PERIOD_MS;
        }
        self.asteroid_cooldown = self.asteroid_cooldown - dt;
        due
    }
}

} // verus!
