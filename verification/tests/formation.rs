use invaders::invaders::Invaders;

const NUM_COLS: usize = 20;
const NUM_ROWS: usize = 20;

fn positions(invaders: &Invaders) -> Vec<(usize, usize)> {
    let mut out = Vec::new();
    for unit in invaders.army.iter() {
        out.push((unit.x, unit.y));
    }
    out
}

#[test]
fn checkerboard_layout() {
    let invaders = Invaders::new(NUM_COLS, NUM_ROWS);
    // x in {2, 4, ..., 16} (8 values), y in {2, 4, 6, 8} (4 values).
    assert_eq!(invaders.army.len(), 32);
    for unit in invaders.army.iter() {
        assert!(unit.x > 1);
        assert!(unit.x < NUM_COLS - 2);
        assert!(unit.y > 0);
        assert!(unit.y < 9);
        assert_eq!(unit.x % 2, 0);
        assert_eq!(unit.y % 2, 0);
    }
    let pos = positions(&invaders);
    for i in 0..pos.len() {
        for j in (i + 1)..pos.len() {
            assert_ne!(pos[i], pos[j]);
        }
    }
    assert_eq!(invaders.direction, 1);
    assert_eq!(invaders.move_timer.duration_ms, 2000);
    assert_eq!(invaders.move_timer.time_left_ms, 2000);
    assert!(!invaders.move_timer.ready);
}

#[test]
fn no_step_before_period_elapses() {
    let mut invaders = Invaders::new(NUM_COLS, NUM_ROWS);
    let before = positions(&invaders);
    assert!(!invaders.update(1000));
    assert_eq!(positions(&invaders), before);
    assert_eq!(invaders.direction, 1);
    assert_eq!(invaders.move_timer.duration_ms, 2000);
    assert_eq!(invaders.move_timer.time_left_ms, 1000);
}

#[test]
fn lateral_step_after_full_period() {
    let mut invaders = Invaders::new(NUM_COLS, NUM_ROWS);
    let before = positions(&invaders);
    assert!(!invaders.update(1000));
    assert!(invaders.update(1001));
    let after = positions(&invaders);
    assert_eq!(after.len(), before.len());
    for (b, a) in before.iter().zip(after.iter()) {
        assert_eq!(a.0, b.0 + 1);
        assert_eq!(a.1, b.1);
    }
    // No boundary contact: direction and period are unchanged.
    assert_eq!(invaders.direction, 1);
    assert_eq!(invaders.move_timer.duration_ms, 2000);
}

#[test]
fn descent_on_right_edge() {
    let mut invaders = Invaders::new(NUM_COLS, NUM_ROWS);
    // max x starts at 16; three lateral steps bring it to 19 == NUM_COLS - 1.
    for _ in 0..3 {
        assert!(invaders.update(2000));
        assert_eq!(invaders.direction, 1);
        assert_eq!(invaders.move_timer.duration_ms, 2000);
    }
    let before = positions(&invaders);
    assert_eq!(before.iter().map(|p| p.0).max().unwrap(), NUM_COLS - 1);
    assert!(invaders.update(2000));
    let after = positions(&invaders);
    for (b, a) in before.iter().zip(after.iter()) {
        assert_eq!(a.0, b.0);
        assert_eq!(a.1, b.1 + 1);
    }
    assert_eq!(invaders.direction, -1);
    assert_eq!(invaders.move_timer.duration_ms, 1750);
}

#[test]
fn period_shrinks_to_floor_and_stays() {
    let mut invaders = Invaders::new(NUM_COLS, NUM_ROWS);
    let mut last_duration = invaders.move_timer.duration_ms;
    let mut floored = 0;
    for _ in 0..200 {
        let duration = invaders.move_timer.duration_ms;
        assert!(invaders.update(duration));
        let now = invaders.move_timer.duration_ms;
        assert!(now <= last_duration);
        assert!(now >= 250);
        if now == 250 {
            floored += 1;
        }
        last_duration = now;
        if invaders.reached_bottom() {
            break;
        }
    }
    assert!(floored > 0);
}

fn assert_unique(pos: &[(usize, usize)]) {
    for i in 0..pos.len() {
        for j in (i + 1)..pos.len() {
            assert_ne!(pos[i], pos[j]);
        }
    }
}

#[test]
fn descent_on_left_edge() {
    let mut invaders = Invaders::new(NUM_COLS, NUM_ROWS);
    // Three steps right, then the right-edge descent turns the sweep around.
    for _ in 0..4 {
        assert!(invaders.update(2000));
    }
    assert_eq!(invaders.direction, -1);
    assert_eq!(invaders.move_timer.duration_ms, 1750);
    // Five steps left bring the minimum column from 5 to the left edge.
    for _ in 0..5 {
        assert!(invaders.update(1750));
        assert_eq!(invaders.direction, -1);
        assert_eq!(invaders.move_timer.duration_ms, 1750);
    }
    let before = positions(&invaders);
    assert_eq!(before.iter().map(|p| p.0).min().unwrap(), 0);
    assert!(invaders.update(1750));
    let after = positions(&invaders);
    for (b, a) in before.iter().zip(after.iter()) {
        assert_eq!(a.0, b.0);
        assert_eq!(a.1, b.1 + 1);
    }
    assert_eq!(invaders.direction, 1);
    assert_eq!(invaders.move_timer.duration_ms, 1500);
}

#[test]
fn positions_stay_unique_through_steps() {
    let mut invaders = Invaders::new(NUM_COLS, NUM_ROWS);
    assert_unique(&positions(&invaders));
    for _ in 0..12 {
        let duration = invaders.move_timer.duration_ms;
        assert!(invaders.update(duration));
        assert_unique(&positions(&invaders));
        if invaders.reached_bottom() {
            break;
        }
    }
}

#[test]
fn kill_invader_at_exact_cell() {
    let mut invaders = Invaders::new(NUM_COLS, NUM_ROWS);
    let before = invaders.army.len();
    assert!(!invaders.kill_invader_at(3, 3));
    assert_eq!(invaders.army.len(), before);
    assert!(invaders.kill_invader_at(2, 2));
    assert_eq!(invaders.army.len(), before - 1);
    // The cell is empty now: a second elimination there reports failure.
    assert!(!invaders.kill_invader_at(2, 2));
    assert_eq!(invaders.army.len(), before - 1);
}

#[test]
fn all_killed_iff_empty() {
    let mut invaders = Invaders::new(NUM_COLS, NUM_ROWS);
    assert!(!invaders.all_killed());
    let pos = positions(&invaders);
    for (x, y) in pos {
        assert!(invaders.kill_invader_at(x, y));
    }
    assert!(invaders.all_killed());
    assert_eq!(invaders.army.len(), 0);
}

#[test]
fn reached_bottom_by_row() {
    // Rows end right below the formation: a unit at row 8 already touches
    // the second-to-last row of a 9-row grid.
    let invaders = Invaders::new(20, 9);
    assert!(invaders.reached_bottom());
    // One row more and no unit is far enough down.
    let taller = Invaders::new(20, 10);
    assert!(!taller.reached_bottom());
}

#[test]
fn empty_formation_is_quiet() {
    // A grid too narrow for the checkerboard: no units at all.
    let mut invaders = Invaders::new(3, 5);
    assert!(invaders.all_killed());
    assert!(!invaders.reached_bottom());
    // A step still fires, and with the maximum defaulting to 0 away from
    // the right edge, the sweep stays rightward.
    assert!(invaders.update(2000));
    assert_eq!(invaders.direction, 1);
    assert_eq!(invaders.move_timer.duration_ms, 2000);
}

#[test]
fn empty_formation_on_one_column_grid_descends() {
    // With the maximum column defaulting to 0 on an empty army, a
    // one-column grid counts as boundary contact: the step descends.
    let mut invaders = Invaders::new(1, 5);
    assert!(invaders.all_killed());
    assert!(invaders.update(2000));
    assert_eq!(invaders.direction, -1);
    assert_eq!(invaders.move_timer.duration_ms, 1750);
}
