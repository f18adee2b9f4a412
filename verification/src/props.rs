//! Game-wide laws, stated over the mathematical step function
//! [`step_model`] and proved once and for all: the paddle and ball stay on
//! screen, a terminal state freezes the whole state, at most one block dies
//! per frame, the score never decreases, and a fresh grid has the full
//! complement of blocks in color order.

use vstd::prelude::*;

use crate::game::destroyed;
use crate::game::game_init;
use crate::game::init_block;
use crate::game::lemma_block_total;
use crate::game::lemma_scan_result_props;
use crate::game::lemma_step_model_unfold;
use crate::game::paddle_bounce;
use crate::game::paddle_hit;
use crate::game::player_step;
use crate::game::scan_result;
use crate::game::step_model;
use crate::game::wall_step;
use crate::model::block_value;
use crate::model::bullet_moved;
use crate::model::lemma_screen_width;
use crate::model::Color;
use crate::model::Command;
use crate::model::GameModel;
use crate::model::BLOCK_COUNT_PER_ROW;
use crate::model::BULLET_SIZE;
use crate::model::PLAYER_WIDTH;
use crate::model::ROW_COUNT_PER_COLOR;
use crate::model::SCREEN_HEIGHT;
use crate::model::SCREEN_WIDTH;

verus! {

/// After any frame of a live well-formed game the paddle lies within the
/// screen: `0 <= player.x <= SCREEN_WIDTH - PLAYER_WIDTH`.
pub proof fn lemma_player_stays_on_screen(g: GameModel, command: Command)
    requires
        g.wf(),
        !g.is_over,
        !g.is_clear,
    ensures
        0 <= step_model(g, command).player.x <= SCREEN_WIDTH - PLAYER_WIDTH,
{
    lemma_screen_width();
    lemma_step_model_unfold(g, command);
}

/// After any frame of a live well-formed game the ball sits inside the
/// screen horizontally and below its top edge; it passes the bottom edge
/// only in the frame that sets `is_over`.
pub proof fn lemma_ball_stays_on_screen(g: GameModel, command: Command)
    requires
        g.wf(),
        !g.is_over,
        !g.is_clear,
    ensures
        0 <= step_model(g, command).bullet.x <= SCREEN_WIDTH - BULLET_SIZE,
        step_model(g, command).bullet.y >= 0,
        !step_model(g, command).is_over ==> step_model(g, command).bullet.y < SCREEN_HEIGHT,
{
    lemma_screen_width();
    lemma_step_model_unfold(g, command);
    let player = player_step(g.player, command);
    let b1 = bullet_moved(g.bullet);
    let b2 = if paddle_hit(b1, player) {
        paddle_bounce(b1, player)
    } else {
        b1
    };
    let b3 = wall_step(b2);
    assert(0 <= b3.x <= SCREEN_WIDTH - BULLET_SIZE);
    assert(b3.y >= 0);
}

/// A terminal state is frozen: once `is_over` or `is_clear` holds, a step
/// changes nothing.
pub proof fn lemma_terminal_step_is_noop(g: GameModel, command: Command)
    requires
        g.is_over || g.is_clear,
    ensures
        step_model(g, command) == g,
{
}

/// The game after running `commands` in order, one frame each.
pub open spec fn run_steps(g: GameModel, commands: Seq<Command>) -> GameModel
    decreases commands.len(),
{
    if commands.len() == 0 {
        g
    } else {
        run_steps(step_model(g, commands[0]), commands.drop_first())
    }
}

/// A terminal state stays frozen under any number of further steps.
pub proof fn lemma_terminal_state_frozen(g: GameModel, commands: Seq<Command>)
    requires
        g.is_over || g.is_clear,
    ensures
        run_steps(g, commands) == g,
    decreases commands.len(),
{
    if commands.len() > 0 {
        lemma_terminal_step_is_noop(g, commands[0]);
        lemma_terminal_state_frozen(g, commands.drop_first());
    }
}

/// At most one block transitions from existing to destroyed per frame, and
/// no block ever comes back: the blocks keep their number, position and
/// color, existence is only ever lost, and any two blocks that change are
/// the same block.
pub proof fn lemma_at_most_one_block_destroyed(g: GameModel, command: Command)
    ensures
        step_model(g, command).blocks.len() == g.blocks.len(),
        (forall|j: int|
            0 <= j < g.blocks.len() && (#[trigger] step_model(g, command).blocks[j])
                != g.blocks[j] ==> g.blocks[j].is_exist && step_model(g, command).blocks[j]
                == destroyed(g.blocks[j])),
        (forall|j: int, k: int|
            0 <= j < g.blocks.len() && 0 <= k < g.blocks.len() && (#[trigger] step_model(
                g,
                command,
            ).blocks[j]) != g.blocks[j] && (#[trigger] step_model(g, command).blocks[k])
                != g.blocks[k] ==> j == k),
{
    if !g.is_over && !g.is_clear {
        lemma_step_model_unfold(g, command);
        let player = player_step(g.player, command);
        let b1 = bullet_moved(g.bullet);
        let b2 = if paddle_hit(b1, player) {
            paddle_bounce(b1, player)
        } else {
            b1
        };
        let b3 = wall_step(b2);
        lemma_scan_result_props(b3, g.blocks);
    }
}

/// The score never decreases across a frame.
pub proof fn lemma_score_monotone(g: GameModel, command: Command)
    ensures
        step_model(g, command).score >= g.score,
{
    if !g.is_over && !g.is_clear {
        lemma_step_model_unfold(g, command);
        let player = player_step(g.player, command);
        let b1 = bullet_moved(g.bullet);
        let b2 = if paddle_hit(b1, player) {
            paddle_bounce(b1, player)
        } else {
            b1
        };
        let b3 = wall_step(b2);
        match scan_result(b3, g.blocks) {
            Option::Some(k) => {
                assert(block_value(g.blocks[k].color) > 0);
            },
            Option::None => {},
        }
    }
}

/// A fresh game's grid holds exactly `3 * ROW_COUNT_PER_COLOR *
/// BLOCK_COUNT_PER_ROW` blocks, all existing, with every red row above every
/// yellow row and every yellow row above every green row.
pub proof fn lemma_new_game_grid()
    ensures
        game_init().blocks.len() == 3 * ROW_COUNT_PER_COLOR * BLOCK_COUNT_PER_ROW,
        forall|i: int|
            0 <= i < game_init().blocks.len() ==> (#[trigger] game_init().blocks[i]).is_exist,
        forall|i: int|
            0 <= i < game_init().blocks.len() ==> (#[trigger] game_init().blocks[i]).color == (
            if i < 20 {
                Color::Red
            } else if i < 40 {
                Color::Yellow
            } else {
                Color::Green
            }),
{
    lemma_block_total();
    assert forall|i: int| 0 <= i < game_init().blocks.len() implies (#[trigger] game_init()
        .blocks[i]).is_exist && game_init().blocks[i].color == (if i < 20 {
        Color::Red
    } else if i < 40 {
        Color::Yellow
    } else {
        Color::Green
    }) by {
        assert(game_init().blocks[i] == init_block(i));
    }
}

} // verus!
