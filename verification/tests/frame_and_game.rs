use invaders::frame::Drawable;
use invaders::frame::new_frame;
use invaders::game::Command;
use invaders::game::Game;
use invaders::game::GameStatus;
use invaders::invaders::Invaders;
use invaders::player::Player;

const NUM_COLS: usize = 20;
const NUM_ROWS: usize = 20;

#[test]
fn new_frame_is_blank() {
    let frame = new_frame(NUM_COLS, NUM_ROWS);
    assert_eq!(frame.num_cols, NUM_COLS);
    assert_eq!(frame.num_rows, NUM_ROWS);
    for x in 0..NUM_COLS {
        for y in 0..NUM_ROWS {
            assert_eq!(frame.get(x, y), ' ');
        }
    }
}

#[test]
fn frame_set_paints_one_cell() {
    let mut frame = new_frame(NUM_COLS, NUM_ROWS);
    frame.set(3, 7, 'A');
    for x in 0..NUM_COLS {
        for y in 0..NUM_ROWS {
            let expected = if (x, y) == (3, 7) { 'A' } else { ' ' };
            assert_eq!(frame.get(x, y), expected);
        }
    }
}

#[test]
fn formation_blinks_with_the_shared_timer() {
    let mut invaders = Invaders::new(NUM_COLS, NUM_ROWS);
    let mut frame = new_frame(NUM_COLS, NUM_ROWS);
    invaders.draw(&mut frame);
    // A fresh timer has its whole period left: the first blink symbol.
    assert_eq!(frame.get(2, 2), 'x');
    assert_eq!(frame.get(3, 3), ' ');
    // Past the halfway point of the period, the whole formation switches.
    assert!(!invaders.update(1000));
    let mut frame = new_frame(NUM_COLS, NUM_ROWS);
    invaders.draw(&mut frame);
    assert_eq!(frame.get(2, 2), '+');
    assert_eq!(frame.get(16, 8), '+');
}

#[test]
fn player_draw_paints_actor_and_shots() {
    let mut player = Player::new(NUM_COLS, NUM_ROWS);
    assert!(player.shoot());
    let mut frame = new_frame(NUM_COLS, NUM_ROWS);
    player.draw(&mut frame);
    assert_eq!(frame.get(10, 19), 'A');
    assert_eq!(frame.get(10, 18), '|');
}

#[test]
fn exploding_shot_draws_explosion_symbol() {
    let mut invaders = Invaders::new(NUM_COLS, NUM_ROWS);
    let mut player = Player::new(NUM_COLS, NUM_ROWS);
    assert!(player.shoot());
    for _ in 0..10 {
        player.update(50);
    }
    assert!(player.detect_hits(&mut invaders));
    let mut frame = new_frame(NUM_COLS, NUM_ROWS);
    player.draw(&mut frame);
    assert_eq!(frame.get(10, 8), '*');
}

#[test]
fn tick_applies_command_and_paints() {
    let mut game = Game::new(NUM_COLS, NUM_ROWS);
    let mut frame = new_frame(NUM_COLS, NUM_ROWS);
    let status = game.tick(Some(Command::Shoot), 0, &mut frame);
    assert_eq!(status, GameStatus::Playing);
    assert_eq!(game.player.shots.len(), 1);
    assert_eq!(frame.get(10, 19), 'A');
    assert_eq!(frame.get(10, 18), '|');
    assert_eq!(frame.get(2, 2), 'x');
}

#[test]
fn tick_moves_player() {
    let mut game = Game::new(NUM_COLS, NUM_ROWS);
    let mut frame = new_frame(NUM_COLS, NUM_ROWS);
    game.tick(Some(Command::MoveLeft), 0, &mut frame);
    assert_eq!(game.player.x, 9);
    game.tick(Some(Command::MoveRight), 0, &mut frame);
    game.tick(Some(Command::MoveRight), 0, &mut frame);
    assert_eq!(game.player.x, 11);
}

#[test]
fn tick_reports_win_once_all_units_are_gone() {
    // A grid too narrow for the checkerboard starts with no units at all.
    let mut game = Game::new(3, 5);
    let mut frame = new_frame(3, 5);
    let status = game.tick(None, 0, &mut frame);
    assert_eq!(status, GameStatus::Won);
}

#[test]
fn tick_reports_loss_when_formation_reaches_bottom() {
    // On a ten-row grid the lowest units start at row 8: the first
    // descent puts them on the second-to-last row.
    let mut game = Game::new(NUM_COLS, 10);
    let mut frame = new_frame(NUM_COLS, 10);
    // Three lateral steps to the right edge, then the descent.
    for _ in 0..3 {
        let status = game.tick(None, 2000, &mut frame);
        assert_eq!(status, GameStatus::Playing);
    }
    let status = game.tick(None, 2000, &mut frame);
    assert_eq!(status, GameStatus::Lost);
}

#[test]
fn tick_resolves_hits() {
    let mut game = Game::new(NUM_COLS, NUM_ROWS);
    let mut frame = new_frame(NUM_COLS, NUM_ROWS);
    game.tick(Some(Command::Shoot), 0, &mut frame);
    // Ten travel steps carry the shot from row 18 down onto the unit at
    // (10, 8); the movement timer never completes in that time.
    for _ in 0..10 {
        game.tick(None, 50, &mut frame);
    }
    assert_eq!(game.invaders.army.len(), 31);
    assert!(game.player.shots[0].exploding);
    assert_eq!(frame.get(10, 8), '*');
}
