//! The game loop coordinator: one tick applies at most one input command,
//! advances the formation and the shots by the elapsed time, resolves
//! collisions, paints both into a freshly cleared display buffer, and
//! reports whether the game goes on, is won, or is lost.

use vstd::prelude::*;

use crate::frame::Drawable;
use crate::frame::Frame;
use crate::frame::blank_cells;
use crate::invaders::Invader;
use crate::invaders::Invaders;
use crate::invaders::reduced_period;
use crate::player::MAX_SHOTS;
use crate::player::Player;
use crate::player::advanced_shots;
use crate::player::live_shots;
use crate::player::resolve_hits;
use crate::shot::Shot;
use crate::shot::TRAVEL_STEP_MS;
use crate::timer::Timer;

verus! {

/// A discrete input command, at most one per tick.
#[derive(Clone, Copy, Debug, PartialEq, Eq, Structural)]
pub enum Command {
    MoveLeft,
    MoveRight,
    Shoot,
}

/// The terminal state of a tick.
#[derive(Clone, Copy, Debug, PartialEq, Eq, Structural)]
pub enum GameStatus {
    Playing,
    Won,
    Lost,
}

/// The player's column after the command has been applied.
pub open spec fn x_after(player: Player, command: Option<Command>) -> int {
    match command {
        Some(Command::MoveLeft) => if player.x > 0 {
            player.x - 1
        } else {
            0
        },
        Some(Command::MoveRight) => if player.x + 1 < player.num_cols {
            player.x + 1
        } else {
            player.x as int
        },
        _ => player.x as int,
    }
}

/// The player's shots after the command has been applied: a shoot command
/// appends a fresh shot just above the player, unless the capacity of
/// concurrent live shots is already in use.
pub open spec fn shots_after(player: Player, command: Option<Command>) -> Seq<Shot> {
    if command == Some(Command::Shoot) && live_shots(player.shots@) < MAX_SHOTS {
        player.shots@.push(
            Shot {
                x: player.x,
                y: (player.y - 1) as usize,
                exploding: false,
                timer: Timer {
                    duration_ms: TRAVEL_STEP_MS,
                    time_left_ms: TRAVEL_STEP_MS,
                    ready: false,
                },
            },
        )
    } else {
        player.shots@
    }
}

/// The formation's units after its timer has accumulated `delta_ms`: still
/// in place if no period completed, otherwise all one row down on a
/// descent, or all one column along the sweep.
pub open spec fn army_after(invaders: Invaders, delta_ms: u64) -> Seq<Invader> {
    if !invaders.move_timer.ticked(delta_ms).ready {
        invaders.army@
    } else if invaders.descends() {
        invaders.army@.map_values(|u: Invader| Invader { x: u.x, y: (u.y + 1) as usize })
    } else {
        invaders.army@.map_values(
            |u: Invader| Invader { x: (u.x + invaders.direction) as usize, y: u.y },
        )
    }
}

/// The whole game state: the enemy formation and the player, over one grid.
pub struct Game {
    pub invaders: Invaders,
    pub player: Player,
}

impl Game {
    pub open spec fn wf(self) -> bool {
        &&& self.invaders.wf()
        &&& self.player.wf()
        &&& self.invaders.num_cols == self.player.num_cols
        &&& self.invaders.num_rows == self.player.num_rows
    }

    pub open spec fn num_cols(self) -> int {
        self.invaders.num_cols as int
    }

    pub open spec fn num_rows(self) -> int {
        self.invaders.num_rows as int
    }

    /// A fresh game on the given grid: the checkerboard formation and the
    /// player at the center of the bottom row.
    pub fn new(num_cols: usize, num_rows: usize) -> (game: Game)
        requires
            1 <= num_cols,
            2 <= num_rows,
        ensures
            game.wf(),
            game.num_cols() == num_cols,
            game.num_rows() == num_rows,
            game.player.shots@.len() == 0,
            game.player.x == num_cols / 2,
            game.player.y == num_rows - 1,
            game.invaders.direction == 1i32,
            game.invaders.move_timer == (Timer {
                duration_ms: crate::invaders::START_PERIOD_MS,
                time_left_ms: crate::invaders::START_PERIOD_MS,
                ready: false,
            }),
            forall|i: int|
                0 <= i < game.invaders.army@.len() ==> crate::invaders::in_formation(
                    (#[trigger] game.invaders.army@[i]).x as int,
                    game.invaders.army@[i].y as int,
                    num_cols as int,
                    num_rows as int,
                ),
            forall|a: int, b: int|
                #[trigger] crate::invaders::in_formation(a, b, num_cols as int, num_rows as int)
                    ==> crate::invaders::contains_unit(game.invaders.army@, a, b),
    {
        Game { invaders: Invaders::new(num_cols, num_rows), player: Player::new(num_cols, num_rows) }
    }

    /// One tick: apply the command, advance the formation and the shots by
    /// `delta_ms`, resolve collisions, repaint the buffer, and report the
    /// terminal state. The contract pins each stage down: the command's
    /// effect on the player, the formation's step, the shots' advance and
    /// cleanup, the collision outcome, the painted buffer, and the status.
    pub fn tick(&mut self, command: Option<Command>, delta_ms: u64, frame: &mut Frame) -> (status:
        GameStatus)
        requires
            old(self).wf(),
            !old(self).invaders.spec_reached_bottom(),
            old(frame).wf(),
            old(frame).num_cols == old(self).invaders.num_cols,
            old(frame).num_rows == old(self).invaders.num_rows,
        ensures
            final(self).wf(),
            final(self).num_cols() == old(self).num_cols(),
            final(self).num_rows() == old(self).num_rows(),
            final(self).player.x == x_after(old(self).player, command),
            final(self).player.y == old(self).player.y,
            ({
                let shots1 = advanced_shots(shots_after(old(self).player, command), delta_ms);
                let army1 = army_after(old(self).invaders, delta_ms);
                let r = resolve_hits(shots1, army1);
                &&& final(self).player.shots@ == r.0
                &&& final(self).invaders.army@ == r.1
            }),
            final(self).invaders.move_timer == (if old(self).invaders.move_timer.ticked(
                delta_ms,
            ).ready {
                ({
                    let duration_ms = if old(self).invaders.descends() {
                        reduced_period(old(self).invaders.move_timer.duration_ms)
                    } else {
                        old(self).invaders.move_timer.duration_ms
                    };
                    Timer { duration_ms, time_left_ms: duration_ms, ready: false }
                })
            } else {
                old(self).invaders.move_timer.ticked(delta_ms)
            }),
            final(self).invaders.move_timer.duration_ms
                <= old(self).invaders.move_timer.duration_ms,
            final(self).invaders.direction == (if old(self).invaders.move_timer.ticked(
                delta_ms,
            ).ready && old(self).invaders.descends() {
                (-old(self).invaders.direction) as i32
            } else {
                old(self).invaders.direction
            }),
            final(frame).wf(),
            final(frame).num_cols == old(frame).num_cols,
            final(frame).num_rows == old(frame).num_rows,
            final(frame).cells@ == final(self).player.drawn(
                final(self).invaders.drawn(
                    blank_cells(old(frame).num_cols as int, old(frame).num_rows as int),
                    old(frame).num_rows as int,
                ),
                old(frame).num_rows as int,
            ),
            status == (if final(self).invaders.army@.len() == 0 {
                GameStatus::Won
            } else if final(self).invaders.spec_reached_bottom() {
                GameStatus::Lost
            } else {
                GameStatus::Playing
            }),
    {
        match command {
            Some(Command::MoveLeft) => {
                self.player.move_left();
            },
            Some(Command::MoveRight) => {
                self.player.move_right();
            },
            Some(Command::Shoot) => {
                let _fired = self.player.shoot();
            },
            None => {},
        }
        self.invaders.update(delta_ms);
        proof {
            assert(self.invaders.army@ =~= army_after(old(self).invaders, delta_ms));
        }
        self.player.update(delta_ms);
        self.player.detect_hits(&mut self.invaders);
        frame.clear();
        self.invaders.draw(frame);
        self.player.draw(frame);
        if self.invaders.all_killed() {
            GameStatus::Won
        } else if self.invaders.reached_bottom() {
            GameStatus::Lost
        } else {
            GameStatus::Playing
        }
    }
}

} // verus!
