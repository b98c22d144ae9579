//! The enemy formation: a set of units at unique grid cells that sweeps
//! horizontally on a shared movement timer, descends one row and speeds up
//! whenever its extreme column touches a grid edge, and blinks in step with
//! the shared timer when drawn.

use vstd::prelude::*;

use crate::frame::Drawable;
use crate::frame::Frame;
use crate::frame::frame_index;
use crate::timer::Timer;

verus! {

/// The period of the movement timer at construction, in milliseconds.
pub const START_PERIOD_MS: u64 = 2000;

/// How much a descent shortens the movement period, and the floor the
/// period never drops below, in milliseconds.
pub const PERIOD_STEP_MS: u64 = 250;

/// An individual enemy unit at a grid cell.
#[derive(Clone, Copy, Debug)]
pub struct Invader {
    pub x: usize,
    pub y: usize,
}

/// No two units of `army` occupy the same cell.
pub open spec fn positions_unique(army: Seq<Invader>) -> bool {
    forall|i: int, j: int| #![trigger army[i], army[j]]
        0 <= i < j < army.len() ==> !(army[i].x == army[j].x && army[i].y == army[j].y)
}

/// Some unit of `army` occupies cell `(x, y)`.
pub open spec fn contains_unit(army: Seq<Invader>, x: int, y: int) -> bool {
    exists|i: int| 0 <= i < army.len() && (#[trigger] army[i]).x == x && army[i].y == y
}

/// The checkerboard construction predicate: the cells populated at
/// construction are the even-by-even cells strictly inside the two
/// outermost columns, below the top row and above row 9.
pub open spec fn in_formation(x: int, y: int, num_cols: int, num_rows: int) -> bool {
    &&& 1 < x
    &&& x + 2 < num_cols
    &&& 0 < y < 9
    &&& y < num_rows
    &&& x % 2 == 0
    &&& y % 2 == 0
}

/// The minimum column among the units, 0 for an empty army.
pub open spec fn seq_min_x(army: Seq<Invader>) -> int
    decreases army.len(),
{
    if army.len() == 0 {
        0
    } else if army.len() == 1 {
        army[0].x as int
    } else {
        let m = seq_min_x(army.drop_last());
        let v = army.last().x as int;
        if v < m {
            v
        } else {
            m
        }
    }
}

/// The maximum column among the units, 0 for an empty army.
pub open spec fn seq_max_x(army: Seq<Invader>) -> int
    decreases army.len(),
{
    if army.len() == 0 {
        0
    } else if army.len() == 1 {
        army[0].x as int
    } else {
        let m = seq_max_x(army.drop_last());
        let v = army.last().x as int;
        if v > m {
            v
        } else {
            m
        }
    }
}

/// The minimum column is a lower bound on every unit's column and is
/// attained by one of them.
pub proof fn lemma_min_x_bounds(army: Seq<Invader>)
    requires
        army.len() > 0,
    ensures
        forall|i: int| 0 <= i < army.len() ==> seq_min_x(army) <= (#[trigger] army[i]).x,
        exists|i: int| 0 <= i < army.len() && (#[trigger] army[i]).x == seq_min_x(army),
    decreases army.len(),
{
    if army.len() == 1 {
        assert(army[0].x == seq_min_x(army));
    } else {
        let sub = army.drop_last();
        lemma_min_x_bounds(sub);
        assert(forall|i: int| 0 <= i < army.len() - 1 ==> sub[i] == (#[trigger] army[i]));
        if (army.last().x as int) < seq_min_x(sub) {
            assert(army[army.len() - 1].x == seq_min_x(army));
        } else {
            let k = choose|k: int| 0 <= k < sub.len() && (#[trigger] sub[k]).x == seq_min_x(sub);
            assert(army[k].x == seq_min_x(army));
        }
    }
}

/// The maximum column is an upper bound on every unit's column and is
/// attained by one of them.
pub proof fn lemma_max_x_bounds(army: Seq<Invader>)
    requires
        army.len() > 0,
    ensures
        forall|i: int| 0 <= i < army.len() ==> (#[trigger] army[i]).x <= seq_max_x(army),
        exists|i: int| 0 <= i < army.len() && (#[trigger] army[i]).x == seq_max_x(army),
    decreases army.len(),
{
    if army.len() == 1 {
        assert(army[0].x == seq_max_x(army));
    } else {
        let sub = army.drop_last();
        lemma_max_x_bounds(sub);
        assert(forall|i: int| 0 <= i < army.len() - 1 ==> sub[i] == (#[trigger] army[i]));
        if (army.last().x as int) > seq_max_x(sub) {
            assert(army[army.len() - 1].x == seq_max_x(army));
        } else {
            let k = choose|k: int| 0 <= k < sub.len() && (#[trigger] sub[k]).x == seq_max_x(sub);
            assert(army[k].x == seq_max_x(army));
        }
    }
}

/// The minimum column among the units of `army`, with 0 standing in for an
/// empty army.
fn min_x(army: &Vec<Invader>) -> (r: usize)
    ensures
        r == seq_min_x(army@),
{
    if army.len() == 0 {
        return 0;
    }
    let mut r: usize = army[0].x;
    let mut i: usize = 1;
    while i < army.len()
        invariant
            1 <= i <= army@.len(),
            r == seq_min_x(army@.subrange(0, i as int)),
        decreases army@.len() - i,
    {
        proof {
            assert(army@.subrange(0, i as int + 1).drop_last() =~= army@.subrange(0, i as int));
            assert(army@.subrange(0, i as int + 1).last() == army@[i as int]);
        }
        if army[i].x < r {
            r = army[i].x;
        }
        i = i + 1;
    }
    proof {
        assert(army@.subrange(0, army@.len() as int) =~= army@);
    }
    r
}

/// The maximum column of `army`, with 0 standing in for an empty army.
fn max_x(army: &Vec<Invader>) -> (r: usize)
    ensures
        r == seq_max_x(army@),
{
    if army.len() == 0 {
        return 0;
    }
    let mut r: usize = army[0].x;
    let mut i: usize = 1;
    while i < army.len()
        invariant
            1 <= i <= army@.len(),
            r == seq_max_x(army@.subrange(0, i as int)),
        decreases army@.len() - i,
    {
        proof {
            assert(army@.subrange(0, i as int + 1).drop_last() =~= army@.subrange(0, i as int));
            assert(army@.subrange(0, i as int + 1).last() == army@[i as int]);
        }
        if army[i].x > r {
            r = army[i].x;
        }
        i = i + 1;
    }
    proof {
        assert(army@.subrange(0, army@.len() as int) =~= army@);
    }
    r
}

/// The movement period after a descent: shortened by one step, floored at
/// one step.
pub open spec fn reduced_period(duration_ms: u64) -> u64 {
    if duration_ms >= 2 * PERIOD_STEP_MS {
        (duration_ms - PERIOD_STEP_MS) as u64
    } else {
        PERIOD_STEP_MS
    }
}

/// The cells after every unit of `army`, in order, has painted `symbol`
/// into its cell.
pub open spec fn paint_units(
    cells: Seq<char>,
    army: Seq<Invader>,
    symbol: char,
    num_rows: int,
) -> Seq<char>
    decreases army.len(),
{
    if army.len() == 0 {
        cells
    } else {
        paint_units(
            cells.update(frame_index(army[0].x as int, army[0].y as int, num_rows), symbol),
            army.skip(1),
            symbol,
            num_rows,
        )
    }
}

/// The formation: the collection of enemy units together with the shared
/// movement timer and horizontal direction.
pub struct Invaders {
    pub army: Vec<Invader>,
    pub num_cols: usize,
    pub num_rows: usize,
    /// The shared movement timer; its period only ever shrinks.
    pub move_timer: Timer,
    /// +1 while sweeping right, -1 while sweeping left.
    pub direction: i32,
}

impl Invaders {
    pub open spec fn wf(self) -> bool {
        &&& 1 <= self.num_cols
        &&& 1 <= self.num_rows
        &&& forall|i: int|
            0 <= i < self.army@.len() ==> (#[trigger] self.army@[i]).x < self.num_cols
                && self.army@[i].y < self.num_rows
        &&& positions_unique(self.army@)
        &&& self.move_timer.wf()
        &&& !self.move_timer.ready
        &&& PERIOD_STEP_MS <= self.move_timer.duration_ms <= START_PERIOD_MS
        &&& (self.direction == 1i32 || self.direction == -1i32)
    }

    /// Some unit stands on the bottom row (or the row above it): the
    /// formation has come down far enough to end the game.
    pub open spec fn spec_reached_bottom(self) -> bool {
        exists|i: int|
            0 <= i < self.army@.len() && (#[trigger] self.army@[i]).y + 1 >= self.num_rows
    }

    /// Boundary contact: sweeping left with the minimum column on the left
    /// edge, or sweeping right with the maximum column on the right edge.
    /// Exactly then does a step descend and flip the direction.
    pub open spec fn descends(self) -> bool {
        if self.direction == -1i32 {
            seq_min_x(self.army@) == 0
        } else {
            seq_max_x(self.army@) == self.num_cols - 1
        }
    }

    /// The symbol the whole formation blinks in: one symbol while more
    /// than half of the movement period remains, the other afterwards.
    pub open spec fn blink_symbol(self) -> char {
        if self.move_timer.time_left_ms > self.move_timer.duration_ms / 2 {
            'x'
        } else {
            '+'
        }
    }

    /// A fresh formation: the checkerboard of units, a wound-up 2000 ms
    /// movement timer, and a rightward sweep.
    pub fn new(num_cols: usize, num_rows: usize) -> (invaders: Invaders)
        requires
            1 <= num_cols,
            1 <= num_rows,
        ensures
            invaders.wf(),
            invaders.num_cols == num_cols,
            invaders.num_rows == num_rows,
            invaders.direction == 1i32,
            invaders.move_timer == (Timer {
                duration_ms: START_PERIOD_MS,
                time_left_ms: START_PERIOD_MS,
                ready: false,
            }),
            forall|i: int|
                0 <= i < invaders.army@.len() ==> in_formation(
                    (#[trigger] invaders.army@[i]).x as int,
                    invaders.army@[i].y as int,
                    num_cols as int,
                    num_rows as int,
                ),
            forall|a: int, b: int|
                #[trigger] in_formation(a, b, num_cols as int, num_rows as int)
                    ==> contains_unit(invaders.army@, a, b),
    {
        let mut army: Vec<Invader> = Vec::new();
        let mut x: usize = 0;
        while x < num_cols
            invariant
                x <= num_cols,
                1 <= num_cols,
                1 <= num_rows,
                forall|i: int|
                    0 <= i < army@.len() ==> in_formation(
                        (#[trigger] army@[i]).x as int,
                        army@[i].y as int,
                        num_cols as int,
                        num_rows as int,
                    ),
                forall|i: int| 0 <= i < army@.len() ==> (#[trigger] army@[i]).x < x,
                positions_unique(army@),
                forall|a: int, b: int|
                    #[trigger] in_formation(a, b, num_cols as int, num_rows as int) && a < x
                        ==> contains_unit(army@, a, b),
            decreases num_cols - x,
        {
            let mut y: usize = 0;
            while y < num_rows
                invariant
                    y <= num_rows,
                    x < num_cols,
                    1 <= num_cols,
                    1 <= num_rows,
                    forall|i: int|
                        0 <= i < army@.len() ==> in_formation(
                            (#[trigger] army@[i]).x as int,
                            army@[i].y as int,
                            num_cols as int,
                            num_rows as int,
                        ),
                    forall|i: int|
                        0 <= i < army@.len() ==> (#[trigger] army@[i]).x < x
                            || (army@[i].x == x && army@[i].y < y),
                    positions_unique(army@),
                    forall|a: int, b: int|
                        #[trigger] in_formation(a, b, num_cols as int, num_rows as int)
                            && (a < x || (a == x && b < y)) ==> contains_unit(army@, a, b),
                decreases num_rows - y,
            {
                if x > 1 && x < num_cols - 2 && y > 0 && y < 9 && x % 2 == 0 && y % 2 == 0 {
                    let ghost pre = army@;
                    army.push(Invader { x, y });
                    proof {
                        assert(army@ == pre.push(Invader { x, y }));
                        assert(forall|i: int| 0 <= i < pre.len() ==> army@[i] == pre[i]);
                        assert(army@[pre.len() as int] == Invader { x, y });
                        assert forall|a: int, b: int|
                            #[trigger] in_formation(a, b, num_cols as int, num_rows as int)
                                && (a < x || (a == x && b < y + 1))
                                implies contains_unit(army@, a, b) by {
                            if a == x && b == y {
                                assert(army@[pre.len() as int].x == a
                                    && army@[pre.len() as int].y == b);
                            } else {
                                assert(contains_unit(pre, a, b));
                                let i = choose|i: int|
                                    0 <= i < pre.len() && (#[trigger] pre[i]).x == a
                                        && pre[i].y == b;
                                assert(army@[i].x == a && army@[i].y == b);
                            }
                        }
                    }
                } else {
                    proof {
                        assert(!in_formation(x as int, y as int, num_cols as int, num_rows as int));
                    }
                }
                y = y + 1;
            }
            x = x + 1;
        }
        let invaders = Invaders {
            army,
            num_cols,
            num_rows,
            move_timer: Timer::from_millis(START_PERIOD_MS),
            direction: 1,
        };
        proof {
            assert forall|a: int, b: int|
                #[trigger] in_formation(a, b, num_cols as int, num_rows as int)
                    implies contains_unit(invaders.army@, a, b) by {
                assert(a < num_cols);
            }
        }
        invaders
    }

    /// True iff every unit has been eliminated.
    pub fn all_killed(&self) -> (r: bool)
        ensures
            r == (self.army@.len() == 0),
    {
        self.army.len() == 0
    }

    /// True iff some unit's row has reached the second-to-last grid row.
    pub fn reached_bottom(&self) -> (r: bool)
        requires
            self.wf(),
        ensures
            r == self.spec_reached_bottom(),
    {
        let mut i: usize = 0;
        while i < self.army.len()
            invariant
                i <= self.army@.len(),
                self.wf(),
                forall|j: int|
                    0 <= j < i ==> (#[trigger] self.army@[j]).y + 1 < self.num_rows,
            decreases self.army@.len() - i,
        {
            if self.army[i].y + 1 >= self.num_rows {
                return true;
            }
            i = i + 1;
        }
        false
    }

    /// Remove the unit at exactly `(x, y)`, if one is there. Since unit
    /// positions are unique, at most one unit can match.
    pub fn kill_invader_at(&mut self, x: usize, y: usize) -> (killed: bool)
        requires
            old(self).wf(),
        ensures
            final(self).wf(),
            final(self).num_cols == old(self).num_cols,
            final(self).num_rows == old(self).num_rows,
            final(self).direction == old(self).direction,
            final(self).move_timer == old(self).move_timer,
            killed == contains_unit(old(self).army@, x as int, y as int),
            killed ==> exists|i: int|
                0 <= i < old(self).army@.len() && (#[trigger] old(self).army@[i]).x == x
                    && old(self).army@[i].y == y
                    && final(self).army@ == old(self).army@.remove(i),
            !killed ==> final(self).army@ == old(self).army@,
    {
        let ghost pre = self.army@;
        let mut i: usize = 0;
        while i < self.army.len()
            invariant
                i <= pre.len(),
                self.num_cols == old(self).num_cols,
                self.num_rows == old(self).num_rows,
                self.direction == old(self).direction,
                self.move_timer == old(self).move_timer,
                self.army@ == pre,
                pre == old(self).army@,
                old(self).wf(),
                forall|j: int|
                    0 <= j < i ==> !((#[trigger] pre[j]).x == x && pre[j].y == y),
            decreases pre.len() - i,
        {
            if self.army[i].x == x && self.army[i].y == y {
                self.army.remove(i);
                proof {
                    pre.remove_ensures(i as int);
                    assert(contains_unit(pre, x as int, y as int));
                    assert forall|a: int, b: int| #![trigger self.army@[a], self.army@[b]]
                        0 <= a < b < self.army@.len()
                            implies !(self.army@[a].x == self.army@[b].x
                                && self.army@[a].y == self.army@[b].y) by {
                        let a0 = if a < i { a } else { a + 1 };
                        let b0 = if b < i { b } else { b + 1 };
                        assert(self.army@[a] == pre[a0]);
                        assert(self.army@[b] == pre[b0]);
                    }
                }
                return true;
            }
            i = i + 1;
        }
        proof {
            assert(!contains_unit(pre, x as int, y as int));
        }
        false
    }

    /// Accumulate `delta_ms` into the movement timer; when it completes a
    /// period, perform one step of the sweep and report that a step
    /// occurred. A step descends (all rows +1, direction flipped, period
    /// shortened) exactly on boundary contact, and otherwise moves every
    /// unit one column in the current direction.
    pub fn update(&mut self, delta_ms: u64) -> (stepped: bool)
        requires
            old(self).wf(),
            !old(self).spec_reached_bottom(),
        ensures
            final(self).wf(),
            final(self).num_cols == old(self).num_cols,
            final(self).num_rows == old(self).num_rows,
            stepped == old(self).move_timer.ticked(delta_ms).ready,
            final(self).move_timer.duration_ms <= old(self).move_timer.duration_ms,
            !stepped ==> {
                &&& final(self).army@ == old(self).army@
                &&& final(self).direction == old(self).direction
                &&& final(self).move_timer == old(self).move_timer.ticked(delta_ms)
            },
            stepped ==> {
                let down = old(self).descends();
                &&& (final(self).direction != old(self).direction) == down
                &&& final(self).direction == (if down {
                    (-old(self).direction) as i32
                } else {
                    old(self).direction
                })
                &&& final(self).move_timer.duration_ms == (if down {
                    reduced_period(old(self).move_timer.duration_ms)
                } else {
                    old(self).move_timer.duration_ms
                })
                &&& final(self).move_timer.time_left_ms == final(self).move_timer.duration_ms
                &&& !final(self).move_timer.ready
                &&& final(self).army@.len() == old(self).army@.len()
                &&& (down ==> forall|i: int|
                    0 <= i < old(self).army@.len() ==> (#[trigger] final(self).army@[i]).x
                        == old(self).army@[i].x
                        && final(self).army@[i].y == old(self).army@[i].y + 1)
                &&& (!down ==> forall|i: int|
                    0 <= i < old(self).army@.len() ==> (#[trigger] final(self).army@[i]).x
                        == old(self).army@[i].x + old(self).direction
                        && final(self).army@[i].y == old(self).army@[i].y)
            },
    {
        self.move_timer.update(delta_ms);
        if self.move_timer.ready {
            self.move_timer.reset();
            let mut downwards = false;
            if self.direction == -1 {
                let m = min_x(&self.army);
                if m == 0 {
                    self.direction = 1;
                    downwards = true;
                }
            } else {
                let m = max_x(&self.army);
                if m == self.num_cols - 1 {
                    self.direction = -1;
                    downwards = true;
                }
            }
            assert(downwards == old(self).descends());
            let ghost pre = self.army@;
            if downwards {
                let new_duration = if self.move_timer.duration_ms >= 2 * PERIOD_STEP_MS {
                    self.move_timer.duration_ms - PERIOD_STEP_MS
                } else {
                    PERIOD_STEP_MS
                };
                self.move_timer = Timer::from_millis(new_duration);
                let ghost flipped = self.direction;
                let ghost new_timer = self.move_timer;
                let mut i: usize = 0;
                while i < self.army.len()
                    invariant
                        i <= pre.len(),
                        self.army@.len() == pre.len(),
                        old(self).wf(),
                        !old(self).spec_reached_bottom(),
                        pre == old(self).army@,
                        self.num_cols == old(self).num_cols,
                        self.num_rows == old(self).num_rows,
                        self.direction == flipped,
                        self.move_timer == new_timer,
                        forall|j: int|
                            0 <= j < i ==> (#[trigger] self.army@[j]).x == pre[j].x
                                && self.army@[j].y == pre[j].y + 1,
                        forall|j: int| i <= j < pre.len() ==> self.army@[j] == pre[j],
                    decreases pre.len() - i,
                {
                    let inv = self.army[i];
                    proof {
                        assert(self.army@[i as int] == pre[i as int]);
                        assert(pre[i as int].y < old(self).num_rows);
                    }
                    self.army.set(i, Invader { x: inv.x, y: inv.y + 1 });
                    i = i + 1;
                }
                proof {
                    assert forall|j: int|
                        0 <= j < self.army@.len()
                            implies (#[trigger] self.army@[j]).x < self.num_cols
                                && self.army@[j].y < self.num_rows by {
                        assert(!(pre[j].y + 1 >= old(self).num_rows));
                    }
                }
            } else {
                proof {
                    if pre.len() > 0 {
                        lemma_min_x_bounds(pre);
                        lemma_max_x_bounds(pre);
                        if self.direction == 1 {
                            let k = choose|k: int|
                                0 <= k < pre.len() && (#[trigger] pre[k]).x == seq_max_x(pre);
                            assert(pre[k].x < old(self).num_cols);
                        }
                    }
                }
                let moving_right = self.direction == 1;
                let ghost new_timer = self.move_timer;
                let mut i: usize = 0;
                while i < self.army.len()
                    invariant
                        i <= pre.len(),
                        self.army@.len() == pre.len(),
                        old(self).wf(),
                        pre == old(self).army@,
                        self.num_cols == old(self).num_cols,
                        self.num_rows == old(self).num_rows,
                        self.move_timer == new_timer,
                        moving_right == (self.direction == 1i32),
                        self.direction == old(self).direction,
                        moving_right && pre.len() > 0 ==> seq_max_x(pre)
                            < old(self).num_cols - 1,
                        !moving_right ==> seq_min_x(pre) >= 1,
                        pre.len() > 0 ==> forall|j: int|
                            0 <= j < pre.len() ==> seq_min_x(pre) <= (#[trigger] pre[j]).x
                                <= seq_max_x(pre),
                        forall|j: int|
                            0 <= j < i ==> (#[trigger] self.army@[j]).x == pre[j].x
                                + old(self).direction && self.army@[j].y == pre[j].y,
                        forall|j: int| i <= j < pre.len() ==> self.army@[j] == pre[j],
                    decreases pre.len() - i,
                {
                    let inv = self.army[i];
                    proof {
                        assert(self.army@[i as int] == pre[i as int]);
                        assert(seq_min_x(pre) <= pre[i as int].x <= seq_max_x(pre));
                    }
                    let nx = if moving_right {
                        inv.x + 1
                    } else {
                        inv.x - 1
                    };
                    self.army.set(i, Invader { x: nx, y: inv.y });
                    i = i + 1;
                }
            }
            proof {
                assert forall|a: int, b: int| #![trigger self.army@[a], self.army@[b]]
                    0 <= a < b < self.army@.len()
                        implies !(self.army@[a].x == self.army@[b].x
                            && self.army@[a].y == self.army@[b].y) by {
                    assert(!(pre[a].x == pre[b].x && pre[a].y == pre[b].y));
                }
            }
            true
        } else {
            false
        }
    }
}

impl Drawable for Invaders {
    open spec fn fits(&self, num_cols: int, num_rows: int) -> bool {
        &&& self.wf()
        &&& self.num_cols == num_cols
        &&& self.num_rows == num_rows
    }

    open spec fn drawn(&self, cells: Seq<char>, num_rows: int) -> Seq<char> {
        paint_units(cells, self.army@, self.blink_symbol(), num_rows)
    }

    /// Paint every unit's cell with the shared blink symbol: the whole
    /// formation blinks in step, switching halfway through each movement
    /// period.
    fn draw(&self, frame: &mut Frame) {
        let symbol = if self.move_timer.time_left_ms > self.move_timer.duration_ms / 2 {
            'x'
        } else {
            '+'
        };
        let ghost goal = paint_units(
            old(frame).cells@,
            self.army@,
            self.blink_symbol(),
            old(frame).num_rows as int,
        );
        let mut i: usize = 0;
        proof {
            assert(self.army@.skip(0) =~= self.army@);
        }
        while i < self.army.len()
            invariant
                i <= self.army@.len(),
                self.fits(frame.num_cols as int, frame.num_rows as int),
                frame.wf(),
                frame.num_cols == old(frame).num_cols,
                frame.num_rows == old(frame).num_rows,
                symbol == self.blink_symbol(),
                goal == paint_units(
                    old(frame).cells@,
                    self.army@,
                    self.blink_symbol(),
                    old(frame).num_rows as int,
                ),
                paint_units(
                    frame.cells@,
                    self.army@.skip(i as int),
                    symbol,
                    frame.num_rows as int,
                ) == goal,
            decreases self.army@.len() - i,
        {
            let inv = self.army[i];
            proof {
                assert(self.army@.skip(i as int)[0] == self.army@[i as int]);
                assert(self.army@.skip(i as int).skip(1) =~= self.army@.skip(i as int + 1));
            }
            frame.set(inv.x, inv.y, symbol);
            i = i + 1;
        }
        proof {
            assert(self.army@.skip(self.army@.len() as int) =~= Seq::<Invader>::empty());
        }
    }
}

} // verus!
