//! The projectile: an independently timed entity that travels up the grid
//! one row per 50 ms, explodes in place when it hits an enemy unit, and is
//! dead once its 250 ms explosion has run out or it reaches the top row
//! while still traveling.

use vstd::prelude::*;

use crate::frame::Drawable;
use crate::frame::Frame;
use crate::frame::frame_index;
use crate::timer::Timer;

verus! {

/// Milliseconds between two travel steps of a shot.
pub const TRAVEL_STEP_MS: u64 = 50;

/// Milliseconds an explosion lasts before the shot is dead.
pub const EXPLOSION_MS: u64 = 250;

#[derive(Clone, Copy, Debug)]
pub struct Shot {
    pub x: usize,
    pub y: usize,
    /// False while traveling, true once the shot has exploded.
    pub exploding: bool,
    /// Counts down the current travel step, or the explosion once exploding.
    pub timer: Timer,
}

impl Shot {
    pub open spec fn wf(self) -> bool {
        self.timer.wf()
    }

    /// A shot is dead once its explosion has run out, or as soon as it
    /// reaches the top row: a shot still traveling at row 0 never explodes.
    pub open spec fn is_dead(self) -> bool {
        (self.exploding && self.timer.ready) || self.y == 0
    }

    /// The shot after `delta_ms` elapsed milliseconds: the timer counts
    /// down; while traveling, a completed step moves the shot up one row
    /// (never past row 0) and rewinds the timer. An exploding shot is
    /// frozen in place and only its explosion timer runs.
    pub open spec fn stepped(self, delta_ms: u64) -> Shot {
        let t = self.timer.ticked(delta_ms);
        if t.ready && !self.exploding {
            Shot {
                x: self.x,
                y: if self.y > 0 { (self.y - 1) as usize } else { 0 },
                exploding: false,
                timer: Timer {
                    duration_ms: t.duration_ms,
                    time_left_ms: t.duration_ms,
                    ready: false,
                },
            }
        } else {
            Shot { x: self.x, y: self.y, exploding: self.exploding, timer: t }
        }
    }

    /// The symbol the shot paints: explosion or travel.
    pub open spec fn symbol(self) -> char {
        if self.exploding {
            '*'
        } else {
            '|'
        }
    }

    /// A fresh traveling shot at `(x, y)` with a wound-up travel timer.
    pub fn new(x: usize, y: usize) -> (shot: Shot)
        ensures
            shot == (Shot {
                x,
                y,
                exploding: false,
                timer: Timer {
                    duration_ms: TRAVEL_STEP_MS,
                    time_left_ms: TRAVEL_STEP_MS,
                    ready: false,
                },
            }),
            shot.wf(),
    {
        Shot { x, y, exploding: false, timer: Timer::from_millis(TRAVEL_STEP_MS) }
    }

    /// Account for `delta_ms` elapsed milliseconds.
    pub fn update(&mut self, delta_ms: u64)
        ensures
            *final(self) == old(self).stepped(delta_ms),
            old(self).wf() ==> final(self).wf(),
    {
        self.timer.update(delta_ms);
        if self.timer.ready && !self.exploding {
            if self.y > 0 {
                self.y = self.y - 1;
            }
            self.timer.reset();
        }
    }

    /// Transition the traveling shot to exploding: the position freezes and
    /// a fresh explosion countdown replaces the travel timer.
    pub fn explode(&mut self)
        requires
            !old(self).exploding,
        ensures
            *final(self) == (Shot {
                x: old(self).x,
                y: old(self).y,
                exploding: true,
                timer: Timer {
                    duration_ms: EXPLOSION_MS,
                    time_left_ms: EXPLOSION_MS,
                    ready: false,
                },
            }),
            final(self).wf(),
    {
        self.exploding = true;
        self.timer = Timer::from_millis(EXPLOSION_MS);
    }

    /// Whether the shot should be removed from play.
    pub fn dead(&self) -> (r: bool)
        ensures
            r == self.is_dead(),
    {
        (self.exploding && self.timer.ready) || self.y == 0
    }
}

/// The shot after a whole run of elapsed-time updates, one per tick.
pub open spec fn run_shot(shot: Shot, deltas: Seq<u64>) -> Shot
    decreases deltas.len(),
{
    if deltas.len() == 0 {
        shot
    } else {
        run_shot(shot.stepped(deltas[0]), deltas.skip(1))
    }
}

/// The total simulation time of a run of updates.
pub open spec fn total_elapsed(deltas: Seq<u64>) -> int
    decreases deltas.len(),
{
    if deltas.len() == 0 {
        0
    } else {
        deltas[0] + total_elapsed(deltas.skip(1))
    }
}

/// Law: an exploding shot is frozen. However much time passes, its position
/// stays put, it stays exploding, and so it never explodes a second time.
pub proof fn lemma_exploding_shot_frozen(shot: Shot, deltas: Seq<u64>)
    requires
        shot.exploding,
    ensures
        run_shot(shot, deltas).x == shot.x,
        run_shot(shot, deltas).y == shot.y,
        run_shot(shot, deltas).exploding,
    decreases deltas.len(),
{
    if deltas.len() > 0 {
        lemma_exploding_shot_frozen(shot.stepped(deltas[0]), deltas.skip(1));
    }
}

/// Law: a dead shot never comes back to life; updates keep it dead.
pub proof fn lemma_dead_shot_stays_dead(shot: Shot, delta_ms: u64)
    requires
        shot.is_dead(),
    ensures
        shot.stepped(delta_ms).is_dead(),
{
}

/// Law: a shot that is both exploding and expired stays exactly as it is.
pub proof fn lemma_expired_shot_stays(shot: Shot, deltas: Seq<u64>)
    requires
        shot.exploding,
        shot.timer.ready,
    ensures
        run_shot(shot, deltas) == shot,
    decreases deltas.len(),
{
    if deltas.len() > 0 {
        lemma_expired_shot_stays(shot.stepped(deltas[0]), deltas.skip(1));
    }
}

/// Helper for [`lemma_explosion_expiry`], generalized over the time the
/// explosion countdown still has to run.
proof fn lemma_explosion_countdown(shot: Shot, deltas: Seq<u64>)
    requires
        shot.exploding,
        shot.y > 0,
        shot.timer.wf(),
        !shot.timer.ready,
        shot.timer.time_left_ms > 0,
    ensures
        run_shot(shot, deltas).is_dead() <==> total_elapsed(deltas) >= shot.timer.time_left_ms,
    decreases deltas.len(),
{
    if deltas.len() > 0 {
        let next = shot.stepped(deltas[0]);
        if shot.timer.time_left_ms <= deltas[0] {
            lemma_expired_shot_stays(next, deltas.skip(1));
            lemma_nonnegative_elapsed(deltas.skip(1));
        } else {
            lemma_explosion_countdown(next, deltas.skip(1));
        }
    }
}

/// The total elapsed time of a run is never negative.
proof fn lemma_nonnegative_elapsed(deltas: Seq<u64>)
    ensures
        total_elapsed(deltas) >= 0,
    decreases deltas.len(),
{
    if deltas.len() > 0 {
        lemma_nonnegative_elapsed(deltas.skip(1));
    }
}

/// Law: a shot that has just exploded above the top row becomes dead
/// exactly when the explosion duration of simulation time has elapsed,
/// and not a tick before.
pub proof fn lemma_explosion_expiry(shot: Shot, deltas: Seq<u64>)
    requires
        shot.exploding,
        shot.y > 0,
        shot.timer == (Timer {
            duration_ms: EXPLOSION_MS,
            time_left_ms: EXPLOSION_MS,
            ready: false,
        }),
    ensures
        run_shot(shot, deltas).is_dead() <==> total_elapsed(deltas) >= EXPLOSION_MS,
{
    lemma_explosion_countdown(shot, deltas);
}

impl Drawable for Shot {
    open spec fn fits(&self, num_cols: int, num_rows: int) -> bool {
        &&& self.x < num_cols
        &&& self.y < num_rows
    }

    open spec fn drawn(&self, cells: Seq<char>, num_rows: int) -> Seq<char> {
        cells.update(frame_index(self.x as int, self.y as int, num_rows), self.symbol())
    }

    /// Paint the shot's cell: the travel symbol while traveling, the
    /// explosion symbol while exploding.
    fn draw(&self, frame: &mut Frame) {
        let symbol = if self.exploding {
            '*'
        } else {
            '|'
        };
        frame.set(self.x, self.y, symbol);
    }
}

} // verus!
