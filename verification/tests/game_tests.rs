use breakout::model::{Color, Command, Game, Player, Sound};
use breakout::model::{
    BLOCK_COUNT_PER_ROW, BULLET_SIZE, PLAYER_HEIGHT, PLAYER_WIDTH, ROW_COUNT_PER_COLOR,
    SCREEN_HEIGHT, SCREEN_WIDTH,
};

fn drain_sounds(game: &mut Game) -> Vec<Sound> {
    let sounds = game.requested_sounds.clone();
    game.requested_sounds.clear();
    sounds
}

#[test]
fn new_game_grid_shape() {
    let game = Game::new();
    let total = (3 * ROW_COUNT_PER_COLOR * BLOCK_COUNT_PER_ROW) as usize;
    assert_eq!(total, 60);
    assert_eq!(game.blocks.len(), total);
    for (i, block) in game.blocks.iter().enumerate() {
        assert!(block.is_exist);
        let expected = if i < 20 {
            Color::Red
        } else if i < 40 {
            Color::Yellow
        } else {
            Color::Green
        };
        assert_eq!(block.color, expected);
    }
    // Row-major layout: 45 pixels of horizontal and 15 of vertical pitch.
    assert_eq!((game.blocks[0].x, game.blocks[0].y), (15, 25));
    assert_eq!((game.blocks[9].x, game.blocks[9].y), (420, 25));
    assert_eq!((game.blocks[13].x, game.blocks[13].y), (150, 40));
    assert_eq!((game.blocks[59].x, game.blocks[59].y), (420, 100));
}

#[test]
fn new_game_initial_state() {
    let game = Game::new();
    assert!(!game.is_over);
    assert!(!game.is_clear);
    assert_eq!(game.frame, 0);
    assert_eq!(game.score, 0);
    assert_eq!(game.displaying_score, 0);
    assert_eq!(game.player.x, SCREEN_WIDTH / 2 - PLAYER_WIDTH / 2);
    assert_eq!(game.player.y, SCREEN_HEIGHT - PLAYER_HEIGHT - 10);
    assert_eq!(game.bullet.x, SCREEN_WIDTH / 2 - BULLET_SIZE / 2);
    assert_eq!(game.bullet.y, 120);
    assert_eq!(game.bullet.vx, 1);
    assert_eq!(game.bullet.vy, 4);
    assert!(game.bullet.is_exist);
    assert!(game.requested_sounds.is_empty());
}

#[test]
fn player_move_clamps_to_screen() {
    let mut player = Player::new();
    assert_eq!(player.x, 217);
    player.do_move(-8);
    assert_eq!(player.x, 209);
    player.do_move(-100000);
    assert_eq!(player.x, 0);
    player.do_move(-8);
    assert_eq!(player.x, 0);
    player.do_move(100000);
    assert_eq!(player.x, SCREEN_WIDTH - PLAYER_WIDTH);
    player.do_move(8);
    assert_eq!(player.x, SCREEN_WIDTH - PLAYER_WIDTH);
}

#[test]
fn update_moves_player_within_bounds() {
    let mut game = Game::new();
    game.update(Command::Left);
    assert_eq!(game.player.x, 209);
    game.player.x = 0;
    game.update(Command::Left);
    assert_eq!(game.player.x, 0);
    game.player.x = SCREEN_WIDTH - PLAYER_WIDTH;
    game.update(Command::Right);
    assert_eq!(game.player.x, SCREEN_WIDTH - PLAYER_WIDTH);
    assert!(game.player.x >= 0 && game.player.x <= SCREEN_WIDTH - PLAYER_WIDTH);
}

#[test]
fn step_advances_ball_by_velocity() {
    let mut game = Game::new();
    game.bullet.x = 100;
    game.bullet.y = 0;
    game.bullet.vx = 1;
    game.bullet.vy = 4;
    game.update(Command::Neutral);
    assert_eq!(game.bullet.x, 101);
    assert_eq!(game.bullet.y, 4);
    assert_eq!(game.frame, 1);
    assert!(game.requested_sounds.is_empty());
}

#[test]
fn paddle_bounce_reflects_and_repositions() {
    let mut game = Game::new();
    // Start below the block field so only the paddle can be hit.
    game.bullet.x = 100;
    game.bullet.y = 200;
    game.bullet.vx = 1;
    game.bullet.vy = 4;
    let paddle_y = game.player.y;
    let mut bounced = false;
    for _ in 0..100 {
        game.update(Command::Neutral);
        let sounds = drain_sounds(&mut game);
        if game.bullet.vy < 0 {
            // The frame of the bounce: ball flush above the paddle, vertical
            // velocity inverted, hit sound requested.
            assert_eq!(game.bullet.y, paddle_y - BULLET_SIZE);
            assert_eq!(game.bullet.vy, -4);
            assert_eq!(sounds, vec![Sound::Hit]);
            bounced = true;
            break;
        }
        assert!(sounds.is_empty());
        assert!(!game.is_over);
    }
    assert!(bounced);
}

#[test]
fn paddle_bounce_nudges_off_center_hit() {
    let mut game = Game::new();
    // Ball well left of the paddle center (237) when it meets the paddle row.
    game.bullet.x = 100;
    game.bullet.y = 360;
    game.bullet.vx = 1;
    game.bullet.vy = 4;
    game.update(Command::Neutral);
    // After moving to (101, 364) the travel segment crosses the paddle row:
    // reposition to 354, invert vy, and nudge 3 pixels away from the center.
    assert_eq!(game.bullet.y, 354);
    assert_eq!(game.bullet.vy, -4);
    assert_eq!(game.bullet.x, 98);
    assert_eq!(game.requested_sounds, vec![Sound::Hit]);
}

#[test]
fn left_wall_bounce() {
    let mut game = Game::new();
    game.bullet.x = 2;
    game.bullet.y = 200;
    game.bullet.vx = -5;
    game.bullet.vy = 1;
    game.update(Command::Neutral);
    assert_eq!(game.bullet.x, 0);
    assert_eq!(game.bullet.vx, 5);
    // Wall bounces are silent.
    assert!(game.requested_sounds.is_empty());
}

#[test]
fn right_wall_bounce() {
    let mut game = Game::new();
    game.bullet.x = 465;
    game.bullet.y = 200;
    game.bullet.vx = 5;
    game.bullet.vy = 1;
    game.update(Command::Neutral);
    assert_eq!(game.bullet.x, SCREEN_WIDTH - BULLET_SIZE);
    assert_eq!(game.bullet.vx, -5);
}

#[test]
fn top_wall_bounce() {
    let mut game = Game::new();
    game.bullet.x = 100;
    game.bullet.y = 3;
    game.bullet.vx = 1;
    game.bullet.vy = -5;
    game.update(Command::Neutral);
    assert_eq!(game.bullet.y, 0);
    assert_eq!(game.bullet.vy, 5);
}

#[test]
fn block_hit_scores_and_speeds_up() {
    let mut game = Game::new();
    // Ball center (114, 22) -> (114, 26) crosses the top edge (y = 25) of
    // block 2, which spans x = 105..145 in the top (red) row.
    game.bullet.x = 110;
    game.bullet.y = 18;
    game.bullet.vx = 0;
    game.bullet.vy = 4;
    game.update(Command::Neutral);
    assert!(!game.blocks[2].is_exist);
    let destroyed = game.blocks.iter().filter(|b| !b.is_exist).count();
    assert_eq!(destroyed, 1);
    assert_eq!(game.score, 400);
    assert_eq!(game.displaying_score, 10);
    // Reflected upward and sped up by one: -4 -> 4 inverted, then -5.
    assert_eq!(game.bullet.vy, -5);
    assert_eq!(game.requested_sounds, vec![Sound::Hit]);
    assert!(!game.is_over && !game.is_clear);

    // The following frame destroys nothing further and the displayed score
    // keeps catching up while the real score never decreases.
    game.requested_sounds.clear();
    game.update(Command::Neutral);
    let destroyed = game.blocks.iter().filter(|b| !b.is_exist).count();
    assert_eq!(destroyed, 1);
    assert_eq!(game.score, 400);
    assert_eq!(game.displaying_score, 20);
}

#[test]
fn block_speed_up_is_capped() {
    let mut game = Game::new();
    // Same crossing as above but at the maximum falling speed.
    game.bullet.x = 110;
    game.bullet.y = 15;
    game.bullet.vx = 0;
    game.bullet.vy = 10;
    game.update(Command::Neutral);
    assert!(!game.blocks[2].is_exist);
    // Inverted to -10; the speed-up to -11 is clamped back to -10.
    assert_eq!(game.bullet.vy, -10);
}

#[test]
fn score_is_monotone_over_many_frames() {
    let mut game = Game::new();
    let mut last_score = game.score;
    for i in 0..300 {
        let command = match i % 3 {
            0 => Command::Neutral,
            1 => Command::Left,
            _ => Command::Right,
        };
        game.update(command);
        assert!(game.score >= last_score);
        last_score = game.score;
        drain_sounds(&mut game);
        if game.is_over || game.is_clear {
            break;
        }
    }
}

#[test]
fn clearing_last_block_sets_is_clear() {
    let mut game = Game::new();
    for block in game.blocks.iter_mut() {
        block.is_exist = false;
    }
    // Ball safely in the middle of the field, rising.
    game.bullet.x = 10;
    game.bullet.y = 200;
    game.bullet.vx = 1;
    game.bullet.vy = -4;
    game.update(Command::Neutral);
    assert!(game.is_clear);
    assert!(!game.is_over);
}

#[test]
fn game_over_when_ball_passes_bottom() {
    let mut game = Game::new();
    // Start below the paddle row so nothing can deflect the fall.
    game.bullet.x = 100;
    game.bullet.y = 370;
    game.bullet.vx = 1;
    game.bullet.vy = 4;
    game.update(Command::Neutral);
    assert!(!game.is_over);
    game.update(Command::Neutral);
    assert!(!game.is_over);
    game.update(Command::Neutral);
    // y reached 382 >= 380: game over, crash sound requested.
    assert!(game.is_over);
    assert!(game.requested_sounds.contains(&Sound::Crash));
    assert_eq!(game.bullet.y, 382);
}

#[test]
fn terminal_state_freezes_every_field() {
    let mut game = Game::new();
    game.bullet.x = 100;
    game.bullet.y = 370;
    game.bullet.vx = 1;
    game.bullet.vy = 4;
    for _ in 0..3 {
        game.update(Command::Neutral);
    }
    assert!(game.is_over);

    let frame = game.frame;
    let score = game.score;
    let displaying_score = game.displaying_score;
    let player = (game.player.x, game.player.y);
    let bullet = (game.bullet.x, game.bullet.y, game.bullet.vx, game.bullet.vy);
    let sounds = game.requested_sounds.clone();
    let existing: Vec<bool> = game.blocks.iter().map(|b| b.is_exist).collect();

    for command in [Command::Neutral, Command::Left, Command::Right] {
        game.update(command);
        assert!(game.is_over);
        assert!(!game.is_clear);
        assert_eq!(game.frame, frame);
        assert_eq!(game.score, score);
        assert_eq!(game.displaying_score, displaying_score);
        assert_eq!((game.player.x, game.player.y), player);
        assert_eq!(
            (game.bullet.x, game.bullet.y, game.bullet.vx, game.bullet.vy),
            bullet
        );
        assert_eq!(game.requested_sounds, sounds);
        let existing_now: Vec<bool> = game.blocks.iter().map(|b| b.is_exist).collect();
        assert_eq!(existing_now, existing);
    }
}

#[test]
fn clear_state_freezes_further_steps() {
    let mut game = Game::new();
    for block in game.blocks.iter_mut() {
        block.is_exist = false;
    }
    game.bullet.x = 10;
    game.bullet.y = 200;
    game.bullet.vx = 1;
    game.bullet.vy = -4;
    game.update(Command::Neutral);
    assert!(game.is_clear);
    let bullet = (game.bullet.x, game.bullet.y);
    let frame = game.frame;
    game.update(Command::Left);
    game.update(Command::Right);
    assert_eq!((game.bullet.x, game.bullet.y), bullet);
    assert_eq!(game.frame, frame);
    assert!(game.is_clear && !game.is_over);
}
