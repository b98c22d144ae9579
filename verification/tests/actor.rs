use invaders::invaders::Invaders;
use invaders::player::Player;
use invaders::shot::Shot;
use invaders::timer::Timer;

const NUM_COLS: usize = 20;
const NUM_ROWS: usize = 20;

#[test]
fn shot_lifecycle_direct() {
    let mut shot = Shot::new(4, 6);
    assert!(!shot.exploding);
    assert!(!shot.dead());
    assert_eq!(shot.timer.duration_ms, 50);
    shot.update(50);
    assert_eq!(shot.x, 4);
    assert_eq!(shot.y, 5);
    shot.explode();
    assert!(shot.exploding);
    assert_eq!(shot.timer.duration_ms, 250);
    assert!(!shot.dead());
    shot.update(250);
    assert!(shot.dead());
}

#[test]
fn player_starts_center_bottom() {
    let player = Player::new(NUM_COLS, NUM_ROWS);
    assert_eq!(player.x, NUM_COLS / 2);
    assert_eq!(player.y, NUM_ROWS - 1);
    assert_eq!(player.shots.len(), 0);
}

#[test]
fn movement_clamps_at_edges() {
    let mut player = Player::new(NUM_COLS, NUM_ROWS);
    for _ in 0..NUM_COLS {
        player.move_left();
    }
    assert_eq!(player.x, 0);
    player.move_left();
    assert_eq!(player.x, 0);
    for _ in 0..(2 * NUM_COLS) {
        player.move_right();
    }
    assert_eq!(player.x, NUM_COLS - 1);
    player.move_right();
    assert_eq!(player.x, NUM_COLS - 1);
}

#[test]
fn third_shot_is_refused() {
    let mut player = Player::new(NUM_COLS, NUM_ROWS);
    assert!(player.shoot());
    assert!(player.shoot());
    assert_eq!(player.shots.len(), 2);
    assert!(!player.shoot());
    assert_eq!(player.shots.len(), 2);
    assert_eq!(player.shots[0].x, player.x);
    assert_eq!(player.shots[0].y, player.y - 1);
    assert!(!player.shots[0].exploding);
}

#[test]
fn dead_shots_do_not_block_the_trigger() {
    // Two shots whose explosions have run out still sit in the collection
    // until the next cleanup pass; only live shots occupy the firing
    // capacity, so a fire succeeds here.
    let expired = Shot {
        x: 4,
        y: 6,
        exploding: true,
        timer: Timer { duration_ms: 250, time_left_ms: 0, ready: true },
    };
    let mut player = Player {
        x: NUM_COLS / 2,
        y: NUM_ROWS - 1,
        shots: vec![expired, expired],
        num_cols: NUM_COLS,
        num_rows: NUM_ROWS,
    };
    assert!(player.shoot());
    assert_eq!(player.shots.len(), 3);
    assert!(!player.shots[2].exploding);
    // The cleanup pass removes the expired shots and keeps the new one.
    player.update(0);
    assert_eq!(player.shots.len(), 1);
    assert!(!player.shots[0].exploding);
}

#[test]
fn shot_travels_one_row_per_step() {
    let mut player = Player::new(NUM_COLS, NUM_ROWS);
    assert!(player.shoot());
    let start_y = player.shots[0].y;
    player.update(49);
    assert_eq!(player.shots[0].y, start_y);
    player.update(1);
    assert_eq!(player.shots[0].y, start_y - 1);
    player.update(50);
    assert_eq!(player.shots[0].y, start_y - 2);
}

#[test]
fn shot_dies_at_top_row() {
    // On a three-row grid the player sits at row 2 and fires into row 1:
    // one travel step reaches row 0 and the shot is removed unexploded.
    let mut player = Player::new(5, 3);
    assert!(player.shoot());
    assert_eq!(player.shots[0].y, 1);
    player.update(50);
    assert_eq!(player.shots.len(), 0);
}

#[test]
fn hit_eliminates_unit_and_explodes_shot() {
    let mut invaders = Invaders::new(NUM_COLS, NUM_ROWS);
    let mut player = Player::new(NUM_COLS, NUM_ROWS);
    assert!(player.shoot());
    // The shot starts at (10, 18); ten travel steps bring it to (10, 8),
    // where a formation unit stands.
    for _ in 0..10 {
        player.update(50);
    }
    assert_eq!(player.shots[0].x, 10);
    assert_eq!(player.shots[0].y, 8);
    let before = invaders.army.len();
    assert!(player.detect_hits(&mut invaders));
    assert_eq!(invaders.army.len(), before - 1);
    assert!(!invaders.kill_invader_at(10, 8));
    assert!(player.shots[0].exploding);
}

#[test]
fn exploding_shot_hits_nothing_further() {
    let mut invaders = Invaders::new(NUM_COLS, NUM_ROWS);
    let mut player = Player::new(NUM_COLS, NUM_ROWS);
    assert!(player.shoot());
    for _ in 0..10 {
        player.update(50);
    }
    assert!(player.detect_hits(&mut invaders));
    let after_hit = invaders.army.len();
    // The shot is exploding now: a second resolution registers no hit and
    // eliminates nothing.
    assert!(!player.detect_hits(&mut invaders));
    assert_eq!(invaders.army.len(), after_hit);
    assert!(player.shots[0].exploding);
}

#[test]
fn explosion_lasts_exactly_its_duration() {
    let mut invaders = Invaders::new(NUM_COLS, NUM_ROWS);
    let mut player = Player::new(NUM_COLS, NUM_ROWS);
    assert!(player.shoot());
    for _ in 0..10 {
        player.update(50);
    }
    assert!(player.detect_hits(&mut invaders));
    assert!(player.shots[0].exploding);
    // One millisecond short of the explosion duration: still there.
    player.update(249);
    assert_eq!(player.shots.len(), 1);
    assert!(!player.shots[0].dead());
    // The final millisecond: the shot expires and is cleaned up.
    player.update(1);
    assert_eq!(player.shots.len(), 0);
}

#[test]
fn exploding_shot_is_frozen_in_place() {
    let mut invaders = Invaders::new(NUM_COLS, NUM_ROWS);
    let mut player = Player::new(NUM_COLS, NUM_ROWS);
    assert!(player.shoot());
    for _ in 0..10 {
        player.update(50);
    }
    assert!(player.detect_hits(&mut invaders));
    let (x, y) = (player.shots[0].x, player.shots[0].y);
    player.update(100);
    assert_eq!(player.shots[0].x, x);
    assert_eq!(player.shots[0].y, y);
    assert!(player.shots[0].exploding);
}
