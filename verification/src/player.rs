//! The player: a unit on the bottom row that moves horizontally within the
//! grid, fires up to two concurrent shots, and resolves collisions between
//! its shots and the enemy formation.

use vstd::prelude::*;

use crate::frame::Drawable;
use crate::frame::Frame;
use crate::frame::frame_index;
use crate::invaders::Invader;
use crate::invaders::Invaders;
use crate::invaders::contains_unit;
use crate::shot::EXPLOSION_MS;
use crate::shot::Shot;
use crate::shot::TRAVEL_STEP_MS;
use crate::timer::Timer;

verus! {

/// How many live (non-dead) shots may exist at once.
pub const MAX_SHOTS: usize = 2;

/// How many shots of `shots` are live: not yet dead, so still traveling
/// above the top row or still exploding. Dead shots awaiting cleanup do
/// not count against the firing capacity.
pub open spec fn live_shots(shots: Seq<Shot>) -> int
    decreases shots.len(),
{
    if shots.len() == 0 {
        0
    } else {
        (if shots[0].is_dead() {
            0int
        } else {
            1int
        }) + live_shots(shots.skip(1))
    }
}

/// Counting live shots is bounded by the number of shots.
pub proof fn lemma_live_shots_bounds(shots: Seq<Shot>)
    ensures
        0 <= live_shots(shots) <= shots.len(),
    decreases shots.len(),
{
    if shots.len() > 0 {
        lemma_live_shots_bounds(shots.skip(1));
    }
}

/// Appending a shot adds its own liveness to the count.
proof fn lemma_live_shots_push(shots: Seq<Shot>, shot: Shot)
    ensures
        live_shots(shots.push(shot)) == live_shots(shots) + (if shot.is_dead() {
            0int
        } else {
            1int
        }),
    decreases shots.len(),
{
    if shots.len() == 0 {
        assert(shots.push(shot)[0] == shot);
        assert(shots.push(shot).skip(1) =~= Seq::<Shot>::empty());
        assert(live_shots(shots.push(shot).skip(1)) == 0);
    } else {
        assert(shots.push(shot)[0] == shots[0]);
        assert(shots.push(shot).skip(1) =~= shots.skip(1).push(shot));
        lemma_live_shots_push(shots.skip(1), shot);
    }
}

/// A sequence of shots that are all live counts its full length.
proof fn lemma_live_shots_all_live(shots: Seq<Shot>)
    requires
        forall|i: int| 0 <= i < shots.len() ==> !(#[trigger] shots[i]).is_dead(),
    ensures
        live_shots(shots) == shots.len(),
    decreases shots.len(),
{
    if shots.len() > 0 {
        assert(forall|i: int|
            0 <= i < shots.skip(1).len() ==> shots.skip(1)[i] == (#[trigger] shots[i + 1]));
        lemma_live_shots_all_live(shots.skip(1));
    }
}

/// Replacing one shot by another of the same liveness keeps the count.
proof fn lemma_live_shots_update_same(shots: Seq<Shot>, i: int, shot: Shot)
    requires
        0 <= i < shots.len(),
        shot.is_dead() == shots[i].is_dead(),
    ensures
        live_shots(shots.update(i, shot)) == live_shots(shots),
    decreases shots.len(),
{
    if i == 0 {
        assert(shots.update(0, shot).skip(1) =~= shots.skip(1));
    } else {
        assert(shots.update(i, shot).skip(1) =~= shots.skip(1).update(i - 1, shot));
        lemma_live_shots_update_same(shots.skip(1), i - 1, shot);
    }
}

/// One update pass hands back only live shots, and no more of them than
/// were live before: stepping never revives a dead shot.
pub proof fn lemma_advanced_shots_live(shots: Seq<Shot>, delta_ms: u64)
    ensures
        advanced_shots(shots, delta_ms).len() <= live_shots(shots),
        forall|i: int|
            0 <= i < advanced_shots(shots, delta_ms).len() ==> !(#[trigger] advanced_shots(
                shots,
                delta_ms,
            )[i]).is_dead(),
    decreases shots.len(),
{
    if shots.len() > 0 {
        lemma_advanced_shots_live(shots.skip(1), delta_ms);
        lemma_live_shots_bounds(shots.skip(1));
        let s = shots[0].stepped(delta_ms);
        if !s.is_dead() {
            if shots[0].is_dead() {
                crate::shot::lemma_dead_shot_stays_dead(shots[0], delta_ms);
            }
            assert(forall|i: int|
                1 <= i < advanced_shots(shots, delta_ms).len() ==> advanced_shots(
                    shots,
                    delta_ms,
                )[i] == (#[trigger] advanced_shots(shots.skip(1), delta_ms)[i - 1]));
        }
    }
}

/// The shots after one update pass: every shot advances by `delta_ms` and
/// the dead ones are removed, in order.
pub open spec fn advanced_shots(shots: Seq<Shot>, delta_ms: u64) -> Seq<Shot>
    decreases shots.len(),
{
    if shots.len() == 0 {
        shots
    } else {
        let s = shots[0].stepped(delta_ms);
        let rest = advanced_shots(shots.skip(1), delta_ms);
        if s.is_dead() {
            rest
        } else {
            seq![s] + rest
        }
    }
}

/// The shot `s` once it has exploded in place.
pub open spec fn exploded(s: Shot) -> Shot {
    Shot {
        x: s.x,
        y: s.y,
        exploding: true,
        timer: Timer { duration_ms: EXPLOSION_MS, time_left_ms: EXPLOSION_MS, ready: false },
    }
}

/// The unique index of the unit of `army` at `(x, y)`.
pub open spec fn unit_index(army: Seq<Invader>, x: int, y: int) -> int {
    choose|i: int| 0 <= i < army.len() && (#[trigger] army[i]).x == x && army[i].y == y
}

/// Collision resolution, shot by shot in firing order: each shot still
/// traveling whose cell holds a live unit eliminates that unit and becomes
/// exploding; exploding shots are passed over. Yields the shots after the
/// pass, the surviving units, and whether any hit occurred.
pub open spec fn resolve_hits(shots: Seq<Shot>, army: Seq<Invader>) -> (Seq<Shot>, Seq<
    Invader,
>, bool)
    decreases shots.len(),
{
    if shots.len() == 0 {
        (shots, army, false)
    } else {
        let s = shots[0];
        if !s.exploding && contains_unit(army, s.x as int, s.y as int) {
            let survivors = army.remove(unit_index(army, s.x as int, s.y as int));
            let rest = resolve_hits(shots.skip(1), survivors);
            (seq![exploded(s)] + rest.0, rest.1, true)
        } else {
            let rest = resolve_hits(shots.skip(1), army);
            (seq![s] + rest.0, rest.1, rest.2)
        }
    }
}

/// The shots of `shots` that are still traveling, in order.
pub open spec fn traveling_only(shots: Seq<Shot>) -> Seq<Shot>
    decreases shots.len(),
{
    if shots.len() == 0 {
        shots
    } else if shots[0].exploding {
        traveling_only(shots.skip(1))
    } else {
        seq![shots[0]] + traveling_only(shots.skip(1))
    }
}

/// Law: shots already in the exploding phase register no hits. Collision
/// resolution eliminates exactly the units that the still-traveling shots
/// eliminate, reports a hit exactly when one of them hits, and hands every
/// exploding shot back unchanged.
pub proof fn lemma_exploding_shots_hit_nothing(shots: Seq<Shot>, army: Seq<Invader>)
    ensures
        resolve_hits(shots, army).1 == resolve_hits(traveling_only(shots), army).1,
        resolve_hits(shots, army).2 == resolve_hits(traveling_only(shots), army).2,
        resolve_hits(shots, army).0.len() == shots.len(),
        forall|i: int|
            0 <= i < shots.len() && (#[trigger] shots[i]).exploding ==> resolve_hits(
                shots,
                army,
            ).0[i] == shots[i],
    decreases shots.len(),
{
    if shots.len() > 0 {
        let s = shots[0];
        if !s.exploding && contains_unit(army, s.x as int, s.y as int) {
            let survivors = army.remove(unit_index(army, s.x as int, s.y as int));
            lemma_exploding_shots_hit_nothing(shots.skip(1), survivors);
            assert(traveling_only(shots) == seq![s] + traveling_only(shots.skip(1)));
            assert(traveling_only(shots).skip(1) =~= traveling_only(shots.skip(1)));
            assert(traveling_only(shots)[0] == s);
        } else if !s.exploding {
            lemma_exploding_shots_hit_nothing(shots.skip(1), army);
            assert(traveling_only(shots).skip(1) =~= traveling_only(shots.skip(1)));
            assert(traveling_only(shots)[0] == s);
        } else {
            lemma_exploding_shots_hit_nothing(shots.skip(1), army);
        }
        assert forall|i: int|
            0 <= i < shots.len() && (#[trigger] shots[i]).exploding implies resolve_hits(
                shots,
                army,
            ).0[i] == shots[i] by {
            if i > 0 {
                assert(shots.skip(1)[i - 1] == shots[i]);
            }
        }
    }
}

/// The player-controlled actor.
pub struct Player {
    /// Column of the player, within `[0, num_cols)`.
    pub x: usize,
    /// Row of the player: always the bottom row.
    pub y: usize,
    /// The active shots, oldest first; never more than `MAX_SHOTS`.
    pub shots: Vec<Shot>,
    pub num_cols: usize,
    pub num_rows: usize,
}

impl Player {
    pub open spec fn wf(self) -> bool {
        &&& 1 <= self.num_cols
        &&& 2 <= self.num_rows
        &&& self.x < self.num_cols
        &&& self.y + 1 == self.num_rows
        &&& live_shots(self.shots@) <= MAX_SHOTS
        &&& forall|i: int|
            0 <= i < self.shots@.len() ==> (#[trigger] self.shots@[i]).wf()
                && self.shots@[i].x < self.num_cols && self.shots@[i].y < self.num_rows
    }

    /// A fresh player at the horizontal center of the bottom row, with no
    /// shots in flight.
    pub fn new(num_cols: usize, num_rows: usize) -> (player: Player)
        requires
            1 <= num_cols,
            2 <= num_rows,
        ensures
            player.wf(),
            player.num_cols == num_cols,
            player.num_rows == num_rows,
            player.x == num_cols / 2,
            player.y == num_rows - 1,
            player.shots@.len() == 0,
    {
        Player { x: num_cols / 2, y: num_rows - 1, shots: Vec::new(), num_cols, num_rows }
    }

    /// Move one column left, clamped at the left edge.
    pub fn move_left(&mut self)
        requires
            old(self).wf(),
        ensures
            final(self).wf(),
            final(self).x == (if old(self).x > 0 {
                old(self).x - 1
            } else {
                0
            }),
            final(self).y == old(self).y,
            final(self).shots@ == old(self).shots@,
            final(self).num_cols == old(self).num_cols,
            final(self).num_rows == old(self).num_rows,
    {
        if self.x > 0 {
            self.x = self.x - 1;
        }
    }

    /// Move one column right, clamped at the right edge.
    pub fn move_right(&mut self)
        requires
            old(self).wf(),
        ensures
            final(self).wf(),
            final(self).x == (if old(self).x + 1 < old(self).num_cols {
                old(self).x + 1
            } else {
                old(self).x as int
            }),
            final(self).y == old(self).y,
            final(self).shots@ == old(self).shots@,
            final(self).num_cols == old(self).num_cols,
            final(self).num_rows == old(self).num_rows,
    {
        if self.x < self.num_cols - 1 {
            self.x = self.x + 1;
        }
    }

    /// Count the shots that are still live (not dead): only they occupy
    /// the firing capacity.
    fn live_shot_count(&self) -> (live: usize)
        ensures
            live == live_shots(self.shots@),
    {
        let ghost pre = self.shots@;
        let mut live: usize = 0;
        let mut i: usize = 0;
        proof {
            assert(pre.skip(0) =~= pre);
        }
        while i < self.shots.len()
            invariant
                i <= pre.len(),
                pre == self.shots@,
                live <= i,
                live_shots(pre) == live + live_shots(pre.skip(i as int)),
            decreases pre.len() - i,
        {
            proof {
                assert(pre.skip(i as int)[0] == pre[i as int]);
                assert(pre.skip(i as int).skip(1) =~= pre.skip(i as int + 1));
                lemma_live_shots_bounds(pre.skip(i as int + 1));
            }
            if !self.shots[i].dead() {
                live = live + 1;
            }
            i = i + 1;
        }
        proof {
            assert(pre.skip(pre.len() as int) =~= Seq::<Shot>::empty());
        }
        live
    }

    /// Fire a shot from just above the player, unless the capacity of
    /// concurrent live shots is already in use: dead shots still awaiting
    /// cleanup do not block the trigger. Refusal is a normal outcome,
    /// reported through the result.
    pub fn shoot(&mut self) -> (fired: bool)
        requires
            old(self).wf(),
        ensures
            final(self).wf(),
            fired == (live_shots(old(self).shots@) < MAX_SHOTS),
            fired ==> final(self).shots@ == old(self).shots@.push(Shot {
                x: old(self).x,
                y: (old(self).y - 1) as usize,
                exploding: false,
                timer: Timer {
                    duration_ms: TRAVEL_STEP_MS,
                    time_left_ms: TRAVEL_STEP_MS,
                    ready: false,
                },
            }),
            !fired ==> final(self).shots@ == old(self).shots@,
            final(self).x == old(self).x,
            final(self).y == old(self).y,
            final(self).num_cols == old(self).num_cols,
            final(self).num_rows == old(self).num_rows,
    {
        if self.live_shot_count() < MAX_SHOTS {
            let shot = Shot::new(self.x, self.y - 1);
            self.shots.push(shot);
            proof {
                lemma_live_shots_push(old(self).shots@, shot);
            }
            true
        } else {
            false
        }
    }

    /// Advance every shot by `delta_ms` and remove the dead ones: shots
    /// whose explosion has run out, and shots that reached the top row
    /// while still traveling.
    pub fn update(&mut self, delta_ms: u64)
        requires
            old(self).wf(),
        ensures
            final(self).wf(),
            final(self).shots@ == advanced_shots(old(self).shots@, delta_ms),
            final(self).x == old(self).x,
            final(self).y == old(self).y,
            final(self).num_cols == old(self).num_cols,
            final(self).num_rows == old(self).num_rows,
    {
        let ghost pre = self.shots@;
        let mut kept: Vec<Shot> = Vec::new();
        let mut i: usize = 0;
        proof {
            assert(pre.skip(0) =~= pre);
        }
        while i < self.shots.len()
            invariant
                i <= pre.len(),
                old(self).wf(),
                pre == old(self).shots@,
                self.shots@ == pre,
                self.x == old(self).x,
                self.y == old(self).y,
                self.num_cols == old(self).num_cols,
                self.num_rows == old(self).num_rows,
                kept@.len() <= i,
                forall|j: int|
                    0 <= j < kept@.len() ==> (#[trigger] kept@[j]).wf() && kept@[j].x
                        < old(self).num_cols && kept@[j].y < old(self).num_rows,
                advanced_shots(pre, delta_ms) == kept@ + advanced_shots(
                    pre.skip(i as int),
                    delta_ms,
                ),
            decreases pre.len() - i,
        {
            proof {
                assert(pre.skip(i as int)[0] == pre[i as int]);
                assert(pre.skip(i as int).skip(1) =~= pre.skip(i as int + 1));
            }
            let mut s = self.shots[i];
            s.update(delta_ms);
            if !s.dead() {
                kept.push(s);
                proof {
                    assert(kept@ =~= kept@.drop_last() + seq![s]);
                    assert(kept@.drop_last() + seq![s] + advanced_shots(
                        pre.skip(i as int + 1),
                        delta_ms,
                    ) =~= kept@.drop_last() + (seq![s] + advanced_shots(
                        pre.skip(i as int + 1),
                        delta_ms,
                    )));
                }
            }
            i = i + 1;
        }
        proof {
            assert(pre.skip(pre.len() as int) =~= Seq::<Shot>::empty());
            assert(kept@ + advanced_shots(pre.skip(pre.len() as int), delta_ms) =~= kept@);
            lemma_advanced_shots_live(pre, delta_ms);
            lemma_live_shots_all_live(advanced_shots(pre, delta_ms));
        }
        self.shots = kept;
    }

    /// Resolve collisions between the shots and the formation, shot by
    /// shot in firing order: a traveling shot over a live unit eliminates
    /// it and explodes in place; exploding shots are passed over, so no
    /// shot ever hits twice. Reports whether at least one hit occurred.
    pub fn detect_hits(&mut self, invaders: &mut Invaders) -> (hit: bool)
        requires
            old(self).wf(),
            old(invaders).wf(),
        ensures
            final(self).wf(),
            final(invaders).wf(),
            ({
                let r = resolve_hits(old(self).shots@, old(invaders).army@);
                &&& final(self).shots@ == r.0
                &&& final(invaders).army@ == r.1
                &&& hit == r.2
            }),
            final(self).x == old(self).x,
            final(self).y == old(self).y,
            final(self).num_cols == old(self).num_cols,
            final(self).num_rows == old(self).num_rows,
            final(invaders).num_cols == old(invaders).num_cols,
            final(invaders).num_rows == old(invaders).num_rows,
            final(invaders).direction == old(invaders).direction,
            final(invaders).move_timer == old(invaders).move_timer,
    {
        let ghost pre_shots = old(self).shots@;
        let ghost pre_army = old(invaders).army@;
        let ghost r = resolve_hits(pre_shots, pre_army);
        let mut hit = false;
        let mut i: usize = 0;
        proof {
            assert(pre_shots.skip(0) =~= pre_shots);
            assert(self.shots@.subrange(0, 0) =~= Seq::<Shot>::empty());
            assert(Seq::<Shot>::empty() + resolve_hits(pre_shots, pre_army).0 =~= resolve_hits(
                pre_shots,
                pre_army,
            ).0);
        }
        while i < self.shots.len()
            invariant
                i <= pre_shots.len(),
                old(self).wf(),
                old(invaders).wf(),
                pre_shots == old(self).shots@,
                pre_army == old(invaders).army@,
                r == resolve_hits(pre_shots, pre_army),
                self.shots@.len() == pre_shots.len(),
                forall|j: int| i <= j < pre_shots.len() ==> self.shots@[j] == pre_shots[j],
                self.x == old(self).x,
                self.y == old(self).y,
                self.num_cols == old(self).num_cols,
                self.num_rows == old(self).num_rows,
                forall|j: int|
                    0 <= j < self.shots@.len() ==> (#[trigger] self.shots@[j]).wf()
                        && self.shots@[j].x < old(self).num_cols && self.shots@[j].y
                        < old(self).num_rows,
                live_shots(self.shots@) == live_shots(pre_shots),
                invaders.wf(),
                invaders.num_cols == old(invaders).num_cols,
                invaders.num_rows == old(invaders).num_rows,
                invaders.direction == old(invaders).direction,
                invaders.move_timer == old(invaders).move_timer,
                r.0 == self.shots@.subrange(0, i as int) + resolve_hits(
                    pre_shots.skip(i as int),
                    invaders.army@,
                ).0,
                r.1 == resolve_hits(pre_shots.skip(i as int), invaders.army@).1,
                r.2 == (hit || resolve_hits(pre_shots.skip(i as int), invaders.army@).2),
            decreases pre_shots.len() - i,
        {
            let ghost army_now = invaders.army@;
            proof {
                assert(pre_shots.skip(i as int)[0] == pre_shots[i as int]);
                assert(pre_shots.skip(i as int).skip(1) =~= pre_shots.skip(i as int + 1));
            }
            let s = self.shots[i];
            if !s.exploding {
                if invaders.kill_invader_at(s.x, s.y) {
                    proof {
                        let w = choose|w: int|
                            0 <= w < army_now.len() && (#[trigger] army_now[w]).x == s.x
                                && army_now[w].y == s.y
                                && invaders.army@ == army_now.remove(w);
                        let u = unit_index(army_now, s.x as int, s.y as int);
                        assert(0 <= u < army_now.len() && army_now[u].x == s.x
                            && army_now[u].y == s.y);
                        assert(w == u);
                        assert(invaders.army@ == army_now.remove(u));
                    }
                    let mut s2 = s;
                    s2.explode();
                    let ghost shots_before = self.shots@;
                    self.shots.set(i, s2);
                    hit = true;
                    proof {
                        assert(s2 == exploded(s));
                        assert(s2.is_dead() == shots_before[i as int].is_dead());
                        lemma_live_shots_update_same(shots_before, i as int, s2);
                        assert(self.shots@.subrange(0, i as int + 1) =~= self.shots@.subrange(
                            0,
                            i as int,
                        ) + seq![exploded(s)]);
                        assert(self.shots@.subrange(0, i as int) + seq![exploded(s)]
                            + resolve_hits(pre_shots.skip(i as int + 1), invaders.army@).0
                            =~= self.shots@.subrange(0, i as int) + (seq![exploded(s)]
                            + resolve_hits(pre_shots.skip(i as int + 1), invaders.army@).0));
                    }
                } else {
                    proof {
                        assert(self.shots@.subrange(0, i as int + 1) =~= self.shots@.subrange(
                            0,
                            i as int,
                        ) + seq![s]);
                        assert(self.shots@.subrange(0, i as int) + seq![s] + resolve_hits(
                            pre_shots.skip(i as int + 1),
                            invaders.army@,
                        ).0 =~= self.shots@.subrange(0, i as int) + (seq![s] + resolve_hits(
                            pre_shots.skip(i as int + 1),
                            invaders.army@,
                        ).0));
                    }
                }
            } else {
                proof {
                    assert(self.shots@.subrange(0, i as int + 1) =~= self.shots@.subrange(
                        0,
                        i as int,
                    ) + seq![s]);
                    assert(self.shots@.subrange(0, i as int) + seq![s] + resolve_hits(
                        pre_shots.skip(i as int + 1),
                        invaders.army@,
                    ).0 =~= self.shots@.subrange(0, i as int) + (seq![s] + resolve_hits(
                        pre_shots.skip(i as int + 1),
                        invaders.army@,
                    ).0));
                }
            }
            i = i + 1;
        }
        proof {
            assert(pre_shots.skip(pre_shots.len() as int) =~= Seq::<Shot>::empty());
            assert(self.shots@.subrange(0, pre_shots.len() as int) =~= self.shots@);
            assert(self.shots@ + Seq::<Shot>::empty() =~= self.shots@);
        }
        hit
    }
}

/// The cells after every shot of `shots`, in order, has painted its symbol
/// into its cell.
pub open spec fn paint_shots(cells: Seq<char>, shots: Seq<Shot>, num_rows: int) -> Seq<char>
    decreases shots.len(),
{
    if shots.len() == 0 {
        cells
    } else {
        paint_shots(shots[0].drawn(cells, num_rows), shots.skip(1), num_rows)
    }
}

impl Drawable for Player {
    open spec fn fits(&self, num_cols: int, num_rows: int) -> bool {
        &&& self.wf()
        &&& self.num_cols == num_cols
        &&& self.num_rows == num_rows
    }

    open spec fn drawn(&self, cells: Seq<char>, num_rows: int) -> Seq<char> {
        paint_shots(
            cells.update(frame_index(self.x as int, self.y as int, num_rows), 'A'),
            self.shots@,
            num_rows,
        )
    }

    /// Paint the player's own cell, then delegate to each shot in order.
    fn draw(&self, frame: &mut Frame) {
        frame.set(self.x, self.y, 'A');
        let ghost goal = self.drawn(old(frame).cells@, old(frame).num_rows as int);
        let mut i: usize = 0;
        proof {
            assert(self.shots@.skip(0) =~= self.shots@);
        }
        while i < self.shots.len()
            invariant
                i <= self.shots@.len(),
                self.fits(frame.num_cols as int, frame.num_rows as int),
                frame.wf(),
                frame.num_cols == old(frame).num_cols,
                frame.num_rows == old(frame).num_rows,
                goal == self.drawn(old(frame).cells@, old(frame).num_rows as int),
                paint_shots(frame.cells@, self.shots@.skip(i as int), frame.num_rows as int)
                    == goal,
            decreases self.shots@.len() - i,
        {
            proof {
                assert(self.shots@.skip(i as int)[0] == self.shots@[i as int]);
                assert(self.shots@.skip(i as int).skip(1) =~= self.shots@.skip(i as int + 1));
            }
            let s = self.shots[i];
            s.draw(frame);
            i = i + 1;
        }
        proof {
            assert(self.shots@.skip(self.shots@.len() as int) =~= Seq::<Shot>::empty());
        }
    }
}

} // verus!
