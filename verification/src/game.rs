//! The per-frame simulation step. [`step_model`] is the mathematical
//! transition function over [`GameModel`]; [`Game::new`] and [`Game::update`]
//! are the executable constructor and step, each proved to realize its model
//! exactly.

use vstd::prelude::*;

use vstd::arithmetic::div_mod::lemma_fundamental_div_mod_converse;

use crate::geometry::clamp;
use crate::geometry::clamp_int;
use crate::geometry::is_intersect;
use crate::geometry::seg_intersect;
use crate::model::block_value;
use crate::model::blocks_view;
use crate::model::bullet_moved;
use crate::model::lemma_screen_width;
use crate::model::player_init;
use crate::model::Block;
use crate::model::BlockModel;
use crate::model::Bullet;
use crate::model::BulletModel;
use crate::model::Color;
use crate::model::Command;
use crate::model::Game;
use crate::model::GameModel;
use crate::model::Player;
use crate::model::PlayerModel;
use crate::model::Sound;
use crate::model::BLOCK_COUNT_PER_ROW;
use crate::model::BLOCK_HEIGHT;
use crate::model::BLOCK_WIDTH;
use crate::model::BULLET_SIZE;
use crate::model::BULLET_SPEED_Y_MAX;
use crate::model::DISPLAYING_SCORE_SPEED;
use crate::model::IS_MIGHTY;
use crate::model::MARGIN_LEFT;
use crate::model::MARGIN_TOP;
use crate::model::PADDING_X;
use crate::model::PADDING_Y;
use crate::model::PLAYER_SPEED;
use crate::model::PLAYER_WIDTH;
use crate::model::ROW_COUNT_PER_COLOR;
use crate::model::SCREEN_HEIGHT;
use crate::model::SCREEN_WIDTH;

verus! {

/// Total number of blocks in a fresh grid.
pub open spec fn block_total() -> int {
    3 * ROW_COUNT_PER_COLOR * BLOCK_COUNT_PER_ROW
}

/// Ground value of [`block_total`]: three colors of two rows of ten blocks.
pub proof fn lemma_block_total()
    ensures
        block_total() == 60,
{
    assert(3 * ROW_COUNT_PER_COLOR * BLOCK_COUNT_PER_ROW == 60) by (nonlinear_arith)
        requires
            ROW_COUNT_PER_COLOR == 2,
            BLOCK_COUNT_PER_ROW == 10,
    ;
}

/// The block at grid position `i` of a fresh game: row-major layout, rows
/// grouped by color top to bottom in the order red, yellow, green.
pub open spec fn init_block(i: int) -> BlockModel {
    let row = i / (BLOCK_COUNT_PER_ROW as int);
    let col = i % (BLOCK_COUNT_PER_ROW as int);
    BlockModel {
        x: MARGIN_LEFT + col * (BLOCK_WIDTH + PADDING_X),
        y: MARGIN_TOP + row * (BLOCK_HEIGHT + PADDING_Y),
        is_exist: true,
        color: if row < ROW_COUNT_PER_COLOR as int {
            Color::Red
        } else if row < 2 * ROW_COUNT_PER_COLOR as int {
            Color::Yellow
        } else {
            Color::Green
        },
    }
}

/// The state of a fresh game: paddle centered, ball launched from mid-top
/// below the block field, full block grid, zero score.
pub open spec fn game_init() -> GameModel {
    GameModel {
        is_clear: false,
        is_over: false,
        frame: 0,
        player: player_init(),
        score: 0,
        displaying_score: 0,
        bullet: BulletModel {
            x: SCREEN_WIDTH as int / 2 - BULLET_SIZE as int / 2,
            y: 120,
            vx: 1,
            vy: 4,
            is_exist: true,
        },
        blocks: Seq::new(block_total() as nat, |i: int| init_block(i)),
        requested_sounds: Seq::empty(),
    }
}

/// The paddle after one frame of input: an unmoved paddle for `Neutral`,
/// otherwise a shift by the fixed per-frame speed, clamped to the screen.
pub open spec fn player_step(p: PlayerModel, command: Command) -> PlayerModel {
    match command {
        Command::Neutral => p,
        Command::Left => PlayerModel {
            x: clamp_int(0, p.x - PLAYER_SPEED, SCREEN_WIDTH - PLAYER_WIDTH),
            ..p
        },
        Command::Right => PlayerModel {
            x: clamp_int(0, p.x + PLAYER_SPEED, SCREEN_WIDTH - PLAYER_WIDTH),
            ..p
        },
    }
}

/// Whether the ball's travel segment over this frame crosses the paddle's
/// top edge. In mighty mode the edge spans the whole screen width.
pub open spec fn paddle_hit(b: BulletModel, p: PlayerModel) -> bool {
    let left = if IS_MIGHTY { 0 } else { p.x };
    let right = if IS_MIGHTY { SCREEN_WIDTH as int } else { p.x + PLAYER_WIDTH };
    seg_intersect(left, p.y, right, p.y, b.x, b.y, b.x - b.vx, b.y - b.vy)
}

/// The ball after bouncing off the paddle: vertical velocity reflected, the
/// ball repositioned flush above the paddle, and a fixed 3-pixel horizontal
/// nudge away from the paddle's center when the hit point is at least a
/// quarter paddle-width from it.
pub open spec fn paddle_bounce(b: BulletModel, p: PlayerModel) -> BulletModel {
    let b1 = BulletModel { y: p.y - BULLET_SIZE, vy: -b.vy, ..b };
    let bullet_center = b.x + BULLET_SIZE as int / 2;
    let player_center = p.x + PLAYER_WIDTH as int / 2;
    let centers_distance = if bullet_center >= player_center {
        bullet_center - player_center
    } else {
        player_center - bullet_center
    };
    if PLAYER_WIDTH as int / 4 <= centers_distance {
        if bullet_center < player_center {
            BulletModel { x: b1.x - 3, ..b1 }
        } else {
            BulletModel { x: b1.x + 3, ..b1 }
        }
    } else {
        b1
    }
}

/// The ball after wall handling: clamped back inside the left, right and top
/// screen edges, reflecting the corresponding velocity component on each
/// clamp. Wall bounces are silent.
pub open spec fn wall_step(b: BulletModel) -> BulletModel {
    let b1 = if b.x < 0 {
        BulletModel { x: 0, vx: -b.vx, ..b }
    } else {
        b
    };
    let b2 = if b1.x > SCREEN_WIDTH - BULLET_SIZE {
        BulletModel { x: SCREEN_WIDTH - BULLET_SIZE, vx: -b1.vx, ..b1 }
    } else {
        b1
    };
    if b2.y < 0 {
        BulletModel { y: 0, vy: -b2.vy, ..b2 }
    } else {
        b2
    }
}

/// Whether the ball's center travel segment over this frame crosses `blk`'s
/// top edge (falling ball) or bottom edge (rising ball). Left and right
/// edges are deliberately not checked.
pub open spec fn hit_block(b: BulletModel, blk: BlockModel) -> bool {
    let cx = b.x + BULLET_SIZE as int / 2;
    let cy = b.y + BULLET_SIZE as int / 2;
    blk.is_exist && ((b.vy > 0 && seg_intersect(
        blk.x,
        blk.y,
        blk.x + BLOCK_WIDTH,
        blk.y,
        cx,
        cy,
        cx - b.vx,
        cy - b.vy,
    )) || (b.vy < 0 && seg_intersect(
        blk.x,
        blk.y + BLOCK_HEIGHT,
        blk.x + BLOCK_WIDTH,
        blk.y + BLOCK_HEIGHT,
        cx,
        cy,
        cx - b.vx,
        cy - b.vy,
    )))
}

/// Index of the first hit block at or after `i` in ascending scan order, if
/// any.
pub open spec fn first_hit_asc(b: BulletModel, blocks: Seq<BlockModel>, i: int) -> Option<int>
    decreases blocks.len() - i,
{
    if i < 0 || i >= blocks.len() {
        Option::None
    } else if hit_block(b, blocks[i]) {
        Option::Some(i)
    } else {
        first_hit_asc(b, blocks, i + 1)
    }
}

/// Index of the first hit block at or before `i` in descending scan order,
/// if any.
pub open spec fn first_hit_desc(b: BulletModel, blocks: Seq<BlockModel>, i: int) -> Option<int>
    decreases i + 1,
{
    if i < 0 || i >= blocks.len() {
        Option::None
    } else if hit_block(b, blocks[i]) {
        Option::Some(i)
    } else {
        first_hit_desc(b, blocks, i - 1)
    }
}

/// The block the ball destroys this frame, if any: blocks are scanned
/// nearest-first along the ball's direction of vertical travel (array order
/// when falling, reverse order when rising), and only the first match
/// counts.
pub open spec fn scan_result(b: BulletModel, blocks: Seq<BlockModel>) -> Option<int> {
    if b.vy > 0 {
        first_hit_asc(b, blocks, 0)
    } else {
        first_hit_desc(b, blocks, blocks.len() - 1)
    }
}

/// The ball after bouncing off a block: vertical velocity reflected, then
/// sped up by one, its magnitude capped.
pub open spec fn block_bounce(b: BulletModel) -> BulletModel {
    let vy1 = -b.vy;
    let vy2 = if vy1 > 0 {
        clamp_int(-BULLET_SPEED_Y_MAX as int, vy1 + 1, BULLET_SPEED_Y_MAX as int)
    } else {
        clamp_int(-BULLET_SPEED_Y_MAX as int, vy1 - 1, BULLET_SPEED_Y_MAX as int)
    };
    BulletModel { vy: vy2, ..b }
}

/// `blk` with its existence flag cleared.
pub open spec fn destroyed(blk: BlockModel) -> BlockModel {
    BlockModel { is_exist: false, ..blk }
}

/// Whether any block still exists.
pub open spec fn has_existing_block(blocks: Seq<BlockModel>) -> bool {
    exists|k: int| 0 <= k < blocks.len() && blocks[k].is_exist
}

/// The whole game state after one frame, as a function of the previous
/// state and the sampled command. A terminal state is returned unchanged;
/// otherwise the phases apply in order: paddle movement, ball movement,
/// game-over detection, paddle bounce, wall handling, block scan with
/// scoring and speed-up, clear detection, display-score catch-up, frame
/// count.
pub open spec fn step_model(g: GameModel, command: Command) -> GameModel {
    if g.is_over || g.is_clear {
        g
    } else {
        let player = player_step(g.player, command);
        let b1 = bullet_moved(g.bullet);
        let over = b1.y >= SCREEN_HEIGHT as int;
        let sounds1 = if over {
            g.requested_sounds.push(Sound::Crash)
        } else {
            g.requested_sounds
        };
        let hit_paddle = paddle_hit(b1, player);
        let b2 = if hit_paddle {
            paddle_bounce(b1, player)
        } else {
            b1
        };
        let sounds2 = if hit_paddle {
            sounds1.push(Sound::Hit)
        } else {
            sounds1
        };
        let b3 = wall_step(b2);
        let after_scan = match scan_result(b3, g.blocks) {
            Option::Some(k) => (
                block_bounce(b3),
                g.blocks.update(k, destroyed(g.blocks[k])),
                g.score + block_value(g.blocks[k].color),
                sounds2.push(Sound::Hit),
            ),
            Option::None => (b3, g.blocks, g.score, sounds2),
        };
        let bullet = after_scan.0;
        let blocks = after_scan.1;
        let score = after_scan.2;
        let sounds = after_scan.3;
        let displaying_score = if g.displaying_score < score {
            g.displaying_score + DISPLAYING_SCORE_SPEED as int
        } else {
            g.displaying_score
        };
        GameModel {
            is_clear: !has_existing_block(blocks),
            is_over: over,
            frame: g.frame + 1,
            player,
            score,
            displaying_score,
            bullet,
            blocks,
            requested_sounds: sounds,
        }
    }
}

/// One definitional unfolding of [`step_model`] on a live state, phase by
/// phase, for use where unfolding the whole definition at once is too
/// costly.
pub proof fn lemma_step_model_unfold(g: GameModel, command: Command)
    requires
        !g.is_over,
        !g.is_clear,
    ensures
        ({
            let player = player_step(g.player, command);
            let b1 = bullet_moved(g.bullet);
            let over = b1.y >= SCREEN_HEIGHT as int;
            let sounds1 = if over {
                g.requested_sounds.push(Sound::Crash)
            } else {
                g.requested_sounds
            };
            let hit_paddle = paddle_hit(b1, player);
            let b2 = if hit_paddle {
                paddle_bounce(b1, player)
            } else {
                b1
            };
            let sounds2 = if hit_paddle {
                sounds1.push(Sound::Hit)
            } else {
                sounds1
            };
            let b3 = wall_step(b2);
            let after_scan = match scan_result(b3, g.blocks) {
                Option::Some(k) => (
                    block_bounce(b3),
                    g.blocks.update(k, destroyed(g.blocks[k])),
                    g.score + block_value(g.blocks[k].color),
                    sounds2.push(Sound::Hit),
                ),
                Option::None => (b3, g.blocks, g.score, sounds2),
            };
            let bullet = after_scan.0;
            let blocks = after_scan.1;
            let score = after_scan.2;
            let sounds = after_scan.3;
            let displaying_score = if g.displaying_score < score {
                g.displaying_score + DISPLAYING_SCORE_SPEED as int
            } else {
                g.displaying_score
            };
            step_model(g, command) == GameModel {
                is_clear: !has_existing_block(blocks),
                is_over: over,
                frame: g.frame + 1,
                player,
                score,
                displaying_score,
                bullet,
                blocks,
                requested_sounds: sounds,
            }
        }),
{
}

/// A hit found by the ascending scan lies at or after the start index and
/// really is a hit.
pub proof fn lemma_first_hit_asc_props(b: BulletModel, blocks: Seq<BlockModel>, i: int)
    ensures
        (match first_hit_asc(b, blocks, i) {
            Option::Some(k) => i <= k < blocks.len() && hit_block(b, blocks[k]),
            Option::None => true,
        }),
    decreases blocks.len() - i,
{
    if i < 0 || i >= blocks.len() {
    } else if hit_block(b, blocks[i]) {
    } else {
        lemma_first_hit_asc_props(b, blocks, i + 1);
    }
}

/// A hit found by the descending scan lies at or before the start index and
/// really is a hit.
pub proof fn lemma_first_hit_desc_props(b: BulletModel, blocks: Seq<BlockModel>, i: int)
    ensures
        (match first_hit_desc(b, blocks, i) {
            Option::Some(k) => 0 <= k <= i && k < blocks.len() && hit_block(b, blocks[k]),
            Option::None => true,
        }),
    decreases i + 1,
{
    if i < 0 || i >= blocks.len() {
    } else if hit_block(b, blocks[i]) {
    } else {
        lemma_first_hit_desc_props(b, blocks, i - 1);
    }
}

/// The block the scan finds is a real index of a really hit block.
pub proof fn lemma_scan_result_props(b: BulletModel, blocks: Seq<BlockModel>)
    ensures
        (match scan_result(b, blocks) {
            Option::Some(k) => 0 <= k < blocks.len() && hit_block(b, blocks[k]),
            Option::None => true,
        }),
{
    lemma_first_hit_asc_props(b, blocks, 0);
    lemma_first_hit_desc_props(b, blocks, blocks.len() - 1);
}

/// One frame keeps a well-formed state well-formed.
pub proof fn lemma_step_model_wf(g: GameModel, command: Command)
    requires
        g.wf(),
    ensures
        step_model(g, command).wf(),
{
    if !g.is_over && !g.is_clear {
        lemma_screen_width();
        lemma_step_model_unfold(g, command);
        let player = player_step(g.player, command);
        let b1 = bullet_moved(g.bullet);
        let over = b1.y >= SCREEN_HEIGHT as int;
        let hit_paddle = paddle_hit(b1, player);
        let b2 = if hit_paddle {
            paddle_bounce(b1, player)
        } else {
            b1
        };
        let b3 = wall_step(b2);
        lemma_scan_result_props(b3, g.blocks);
        let g2 = step_model(g, command);
        if !g2.is_over && !g2.is_clear {
            assert(0 <= player.x <= SCREEN_WIDTH - PLAYER_WIDTH);
            assert(0 <= b3.x <= SCREEN_WIDTH - BULLET_SIZE);
            assert(b3.y >= 0);
            assert(!over);
            assert(b2.y < SCREEN_HEIGHT);
            assert(0 <= g2.bullet.y < SCREEN_HEIGHT);
            assert(-BULLET_SPEED_Y_MAX <= g2.bullet.vx <= BULLET_SPEED_Y_MAX);
            assert(-BULLET_SPEED_Y_MAX <= g2.bullet.vy <= BULLET_SPEED_Y_MAX);
            match scan_result(b3, g.blocks) {
                Option::Some(k) => {
                    assert(forall|j: int|
                        0 <= j < g2.blocks.len() ==> 0 <= (#[trigger] g2.blocks[j]).x
                            <= SCREEN_WIDTH - BLOCK_WIDTH && 0 <= g2.blocks[j].y <= SCREEN_HEIGHT
                            - BLOCK_HEIGHT) by {
                        assert(forall|j: int|
                            0 <= j < g2.blocks.len() && j != k ==> g2.blocks[j] == g.blocks[j]);
                        assert(g2.blocks[k].x == g.blocks[k].x);
                        assert(g2.blocks[k].y == g.blocks[k].y);
                    }
                },
                Option::None => {},
            }
        }
    }
}

/// Test the ball's travel segment against the paddle's top edge and apply
/// the bounce on a hit: reflect the vertical velocity, sit the ball flush
/// above the paddle, and nudge it away from the paddle's center on an
/// off-center hit.
fn bounce_on_paddle(bullet: &mut Bullet, player: &Player) -> (hit: bool)
    requires
        -1000 <= old(bullet)@.x <= 1000,
        -1000 <= old(bullet)@.y <= 1000,
        -BULLET_SPEED_Y_MAX <= old(bullet)@.vx <= BULLET_SPEED_Y_MAX,
        -BULLET_SPEED_Y_MAX <= old(bullet)@.vy <= BULLET_SPEED_Y_MAX,
        0 <= player@.x <= SCREEN_WIDTH - PLAYER_WIDTH,
        0 <= player@.y <= SCREEN_HEIGHT,
    ensures
        hit == paddle_hit(old(bullet)@, player@),
        final(bullet)@ == (if hit {
            paddle_bounce(old(bullet)@, player@)
        } else {
            old(bullet)@
        }),
{
    proof {
        lemma_screen_width();
    }
    let player_left: i32;
    let player_right: i32;
    if IS_MIGHTY {
        player_left = 0;
        player_right = SCREEN_WIDTH;
    } else {
        player_left = player.x;
        player_right = player.x + PLAYER_WIDTH;
    }
    if is_intersect(
        player_left,
        player.y,
        player_right,
        player.y,
        bullet.x,
        bullet.y,
        bullet.x - bullet.vx,
        bullet.y - bullet.vy,
    ) {
        bullet.vy = -bullet.vy;
        bullet.y = player.y - BULLET_SIZE;
        let bullet_center = bullet.x + BULLET_SIZE / 2;
        let player_center = player.x + PLAYER_WIDTH / 2;
        let centers_distance = if bullet_center >= player_center {
            bullet_center - player_center
        } else {
            player_center - bullet_center
        };
        if PLAYER_WIDTH / 4 <= centers_distance {
            if bullet_center < player_center {
                bullet.x = bullet.x - 3;
            } else {
                bullet.x = bullet.x + 3;
            }
        }
        true
    } else {
        false
    }
}

/// Clamp the ball back inside the left, right and top screen edges,
/// reflecting the corresponding velocity component on each clamp.
fn bounce_on_walls(bullet: &mut Bullet)
    requires
        -1000 <= old(bullet)@.x <= 1000,
        -1000 <= old(bullet)@.y <= 1000,
        -BULLET_SPEED_Y_MAX <= old(bullet)@.vx <= BULLET_SPEED_Y_MAX,
        -BULLET_SPEED_Y_MAX <= old(bullet)@.vy <= BULLET_SPEED_Y_MAX,
    ensures
        final(bullet)@ == wall_step(old(bullet)@),
{
    proof {
        lemma_screen_width();
    }
    if bullet.x < 0 {
        bullet.x = 0;
        bullet.vx = -bullet.vx;
    }
    if bullet.x > SCREEN_WIDTH - BULLET_SIZE {
        bullet.x = SCREEN_WIDTH - BULLET_SIZE;
        bullet.vx = -bullet.vx;
    }
    if bullet.y < 0 {
        bullet.y = 0;
        bullet.vy = -bullet.vy;
    }
}

/// Reflect the ball's vertical velocity after a block hit, then speed it up
/// by one, capped at the maximum magnitude.
fn bounce_on_block(bullet: &mut Bullet)
    requires
        -BULLET_SPEED_Y_MAX <= old(bullet)@.vy <= BULLET_SPEED_Y_MAX,
    ensures
        final(bullet)@ == block_bounce(old(bullet)@),
{
    bullet.vy = -bullet.vy;
    if bullet.vy > 0 {
        bullet.vy = clamp(-BULLET_SPEED_Y_MAX, bullet.vy + 1, BULLET_SPEED_Y_MAX);
    } else {
        bullet.vy = clamp(-BULLET_SPEED_Y_MAX, bullet.vy - 1, BULLET_SPEED_Y_MAX);
    }
}

/// Scan the still-existing blocks for the first one whose top edge (falling
/// ball) or bottom edge (rising ball) the ball's center crossed this frame,
/// nearest-first along the ball's direction of vertical travel.
fn find_hit_block(bullet: &Bullet, blocks: &Vec<Block>) -> (found: Option<usize>)
    requires
        0 <= bullet@.x <= SCREEN_WIDTH - BULLET_SIZE,
        0 <= bullet@.y <= SCREEN_HEIGHT + 2 * BULLET_SPEED_Y_MAX,
        -BULLET_SPEED_Y_MAX <= bullet@.vx <= BULLET_SPEED_Y_MAX,
        -BULLET_SPEED_Y_MAX <= bullet@.vy <= BULLET_SPEED_Y_MAX,
        forall|k: int|
            0 <= k < blocks@.len() ==> 0 <= (#[trigger] blocks_view(blocks@)[k]).x <= SCREEN_WIDTH
                - BLOCK_WIDTH && 0 <= blocks_view(blocks@)[k].y <= SCREEN_HEIGHT - BLOCK_HEIGHT,
    ensures
        (match found {
            Option::Some(k) => k < blocks@.len() && scan_result(bullet@, blocks_view(blocks@))
                == Option::Some(k as int),
            Option::None => scan_result(bullet@, blocks_view(blocks@)) == Option::<int>::None,
        }),
{
    proof {
        lemma_screen_width();
    }
    let bullet_center_x = bullet.x + BULLET_SIZE / 2;
    let bullet_center_y = bullet.y + BULLET_SIZE / 2;
    let ghost b = bullet@;
    let ghost bs = blocks_view(blocks@);
    if bullet.vy > 0 {
        let mut i: usize = 0;
        while i < blocks.len()
            invariant
                i <= bs.len(),
                bs == blocks_view(blocks@),
                b == bullet@,
                0 <= b.x <= SCREEN_WIDTH - BULLET_SIZE,
                0 <= b.y <= SCREEN_HEIGHT + 2 * BULLET_SPEED_Y_MAX,
                -BULLET_SPEED_Y_MAX <= b.vx <= BULLET_SPEED_Y_MAX,
                0 < b.vy <= BULLET_SPEED_Y_MAX,
                bullet_center_x == b.x + BULLET_SIZE as int / 2,
                bullet_center_y == b.y + BULLET_SIZE as int / 2,
                forall|k: int|
                    0 <= k < bs.len() ==> 0 <= (#[trigger] bs[k]).x <= SCREEN_WIDTH - BLOCK_WIDTH
                        && 0 <= bs[k].y <= SCREEN_HEIGHT - BLOCK_HEIGHT,
                first_hit_asc(b, bs, 0) == first_hit_asc(b, bs, i as int),
            decreases bs.len() - i,
        {
            proof {
                lemma_screen_width();
            }
            let block = &blocks[i];
            if block.is_exist {
                if bullet.vy > 0 && is_intersect(
                    block.x,
                    block.y,
                    block.x + BLOCK_WIDTH,
                    block.y,
                    bullet_center_x,
                    bullet_center_y,
                    bullet_center_x - bullet.vx,
                    bullet_center_y - bullet.vy,
                ) {
                    proof {
                        assert(hit_block(b, bs[i as int]));
                        assert(scan_result(b, bs) == Option::Some(i as int));
                    }
                    return Option::Some(i);
                }
                if bullet.vy < 0 && is_intersect(
                    block.x,
                    block.y + BLOCK_HEIGHT,
                    block.x + BLOCK_WIDTH,
                    block.y + BLOCK_HEIGHT,
                    bullet_center_x,
                    bullet_center_y,
                    bullet_center_x - bullet.vx,
                    bullet_center_y - bullet.vy,
                ) {
                    proof {
                        assert(hit_block(b, bs[i as int]));
                        assert(scan_result(b, bs) == Option::Some(i as int));
                    }
                    return Option::Some(i);
                }
            }
            proof {
                assert(!hit_block(b, bs[i as int]));
                assert(first_hit_asc(b, bs, i as int) == first_hit_asc(b, bs, i as int + 1));
            }
            i = i + 1;
        }
        proof {
            assert(first_hit_asc(b, bs, bs.len() as int) == Option::<int>::None);
        }
        Option::None
    } else {
        let mut i: usize = blocks.len();
        while i > 0
            invariant
                i <= bs.len(),
                bs == blocks_view(blocks@),
                b == bullet@,
                0 <= b.x <= SCREEN_WIDTH - BULLET_SIZE,
                0 <= b.y <= SCREEN_HEIGHT + 2 * BULLET_SPEED_Y_MAX,
                -BULLET_SPEED_Y_MAX <= b.vx <= BULLET_SPEED_Y_MAX,
                -BULLET_SPEED_Y_MAX <= b.vy <= 0,
                bullet_center_x == b.x + BULLET_SIZE as int / 2,
                bullet_center_y == b.y + BULLET_SIZE as int / 2,
                forall|k: int|
                    0 <= k < bs.len() ==> 0 <= (#[trigger] bs[k]).x <= SCREEN_WIDTH - BLOCK_WIDTH
                        && 0 <= bs[k].y <= SCREEN_HEIGHT - BLOCK_HEIGHT,
                first_hit_desc(b, bs, bs.len() - 1) == first_hit_desc(b, bs, i as int - 1),
            decreases i,
        {
            proof {
                lemma_screen_width();
            }
            i = i - 1;
            let block = &blocks[i];
            if block.is_exist {
                if bullet.vy > 0 && is_intersect(
                    block.x,
                    block.y,
                    block.x + BLOCK_WIDTH,
                    block.y,
                    bullet_center_x,
                    bullet_center_y,
                    bullet_center_x - bullet.vx,
                    bullet_center_y - bullet.vy,
                ) {
                    proof {
                        assert(hit_block(b, bs[i as int]));
                        assert(scan_result(b, bs) == Option::Some(i as int));
                    }
                    return Option::Some(i);
                }
                if bullet.vy < 0 && is_intersect(
                    block.x,
                    block.y + BLOCK_HEIGHT,
                    block.x + BLOCK_WIDTH,
                    block.y + BLOCK_HEIGHT,
                    bullet_center_x,
                    bullet_center_y,
                    bullet_center_x - bullet.vx,
                    bullet_center_y - bullet.vy,
                ) {
                    proof {
                        assert(hit_block(b, bs[i as int]));
                        assert(scan_result(b, bs) == Option::Some(i as int));
                    }
                    return Option::Some(i);
                }
            }
            proof {
                assert(!hit_block(b, bs[i as int]));
                assert(first_hit_desc(b, bs, i as int) == first_hit_desc(b, bs, i as int - 1));
            }
        }
        proof {
            assert(first_hit_desc(b, bs, -1) == Option::<int>::None);
        }
        Option::None
    }
}

/// Whether any block still exists on the field.
fn any_block_exists(blocks: &Vec<Block>) -> (r: bool)
    ensures
        r == has_existing_block(blocks_view(blocks@)),
{
    let mut i: usize = 0;
    while i < blocks.len()
        invariant
            i <= blocks@.len(),
            forall|j: int| 0 <= j < i ==> !(#[trigger] blocks_view(blocks@)[j]).is_exist,
        decreases blocks@.len() - i,
    {
        if blocks[i].is_exist {
            proof {
                assert(blocks_view(blocks@)[i as int].is_exist);
            }
            return true;
        }
        i = i + 1;
    }
    false
}

impl Game {
    /// Build a fresh game: paddle centered, ball launched from mid-top with
    /// velocity (1, 4), and the full grid of blocks, rows grouped by color
    /// in the order red, yellow, green.
    pub fn new() -> (game: Game)
        ensures
            game@ == game_init(),
            game@.wf(),
    {
        let mut game = Game {
            is_clear: false,
            is_over: false,
            frame: 0,
            player: Player::new(),
            score: 0,
            displaying_score: 0,
            bullet: Bullet {
                x: SCREEN_WIDTH / 2 - BULLET_SIZE / 2,
                y: 120,
                vx: 1,
                vy: 4,
                is_exist: true,
            },
            blocks: Vec::new(),
            requested_sounds: Vec::new(),
        };

        let mut y: i32 = MARGIN_TOP;
        let mut row: usize = 0;
        while row < 6
            invariant
                row <= 6,
                y == MARGIN_TOP + row * 15,
                game.blocks@.len() == row * 10,
                forall|j: int|
                    0 <= j < game.blocks@.len() ==> #[trigger] game.blocks@[j]@ == init_block(j),
                game.is_clear == false,
                game.is_over == false,
                game.frame == 0,
                game.player@ == player_init(),
                game.score == 0,
                game.displaying_score == 0,
                game.bullet@ == game_init().bullet,
                game.requested_sounds@ == Seq::<Sound>::empty(),
            decreases 6 - row,
        {
            let color = if row < 2 {
                Color::Red
            } else if row < 4 {
                Color::Yellow
            } else {
                Color::Green
            };
            let mut x: i32 = MARGIN_LEFT;
            let mut col: usize = 0;
            while col < 10
                invariant
                    row < 6,
                    col <= 10,
                    y == MARGIN_TOP + row * 15,
                    x == MARGIN_LEFT + col * 45,
                    color == (if row < 2 {
                        Color::Red
                    } else if row < 4 {
                        Color::Yellow
                    } else {
                        Color::Green
                    }),
                    game.blocks@.len() == row * 10 + col,
                    forall|j: int|
                        0 <= j < game.blocks@.len() ==> #[trigger] game.blocks@[j]@ == init_block(
                            j,
                        ),
                    game.is_clear == false,
                    game.is_over == false,
                    game.frame == 0,
                    game.player@ == player_init(),
                    game.score == 0,
                    game.displaying_score == 0,
                    game.bullet@ == game_init().bullet,
                    game.requested_sounds@ == Seq::<Sound>::empty(),
                decreases 10 - col,
            {
                game.blocks.push(Block { x, y, is_exist: true, color });
                proof {
                    let j = row * 10 + col;
                    lemma_fundamental_div_mod_converse(j, 10, row as int, col as int);
                    assert(col * ((BLOCK_WIDTH + PADDING_X) as int) == col * 45) by (
                    nonlinear_arith)
                        requires
                            BLOCK_WIDTH == 40,
                            PADDING_X == 5,
                    ;
                    assert(row * ((BLOCK_HEIGHT + PADDING_Y) as int) == row * 15) by (
                    nonlinear_arith)
                        requires
                            BLOCK_HEIGHT == 10,
                            PADDING_Y == 5,
                    ;
                    assert(game.blocks@[j]@ == init_block(j));
                }
                x = x + (BLOCK_WIDTH + PADDING_X);
                col = col + 1;
            }
            y = y + (BLOCK_HEIGHT + PADDING_Y);
            row = row + 1;
        }

        proof {
            lemma_block_total();
            assert(game@.blocks =~= game_init().blocks);
            assert(game@ =~= game_init());
        }
        game
    }

    /// Advance the game one frame: move the paddle by `command`, move the
    /// ball, detect game over at the bottom edge, bounce the ball off the
    /// paddle, the walls and at most one block, score the destroyed block,
    /// detect a cleared field, let the displayed score catch up, and count
    /// the frame. In a terminal state the call is a no-op.
    ///
    /// The two numeric bounds in the precondition only keep the score and
    /// the frame counter from overflowing their `i32` fields.
    #[verifier::rlimit(100)]
    pub fn update(&mut self, command: Command)
        requires
            old(self)@.wf(),
            old(self)@.is_over || old(self)@.is_clear || (old(self)@.score + 409 <= i32::MAX
                && old(self)@.frame < i32::MAX),
        ensures
            final(self)@ == step_model(old(self)@, command),
            final(self)@.wf(),
    {
        if self.is_over || self.is_clear {
            return;
        }
        proof {
            lemma_screen_width();
        }
        let ghost g0 = self@;

        match command {
            Command::Neutral => {},
            Command::Left => self.player.do_move(-PLAYER_SPEED),
            Command::Right => self.player.do_move(PLAYER_SPEED),
        }
        proof {
            assert(self.player@ == player_step(g0.player, command));
        }

        self.bullet.do_move();
        let ghost b1 = bullet_moved(g0.bullet);

        if self.bullet.y >= SCREEN_HEIGHT {
            self.is_over = true;
            self.requested_sounds.push(Sound::Crash);
        }
        let ghost over = b1.y >= SCREEN_HEIGHT as int;
        let ghost sounds1 = if over {
            g0.requested_sounds.push(Sound::Crash)
        } else {
            g0.requested_sounds
        };
        proof {
            assert(self.is_over == over);
            assert(self.requested_sounds@ == sounds1);
        }

        let hit_paddle = bounce_on_paddle(&mut self.bullet, &self.player);
        if hit_paddle {
            self.requested_sounds.push(Sound::Hit);
        }
        let ghost b2 = if hit_paddle {
            paddle_bounce(b1, player_step(g0.player, command))
        } else {
            b1
        };
        let ghost sounds2 = if hit_paddle {
            sounds1.push(Sound::Hit)
        } else {
            sounds1
        };
        proof {
            assert(self.bullet@ == b2);
            assert(self.requested_sounds@ == sounds2);
        }

        bounce_on_walls(&mut self.bullet);
        let ghost b3 = wall_step(b2);
        proof {
            assert(self.bullet@ == b3);
        }

        let found = find_hit_block(&self.bullet, &self.blocks);
        let ghost b4 = match scan_result(b3, g0.blocks) {
            Option::Some(k) => block_bounce(b3),
            Option::None => b3,
        };
        let ghost blocks2 = match scan_result(b3, g0.blocks) {
            Option::Some(k) => g0.blocks.update(k, destroyed(g0.blocks[k])),
            Option::None => g0.blocks,
        };
        let ghost score2 = match scan_result(b3, g0.blocks) {
            Option::Some(k) => g0.score + block_value(g0.blocks[k].color),
            Option::None => g0.score,
        };
        let ghost sounds3 = match scan_result(b3, g0.blocks) {
            Option::Some(k) => sounds2.push(Sound::Hit),
            Option::None => sounds2,
        };
        if let Option::Some(k) = found {
            let add = self.blocks[k].get_score();
            let block = &mut self.blocks[k];
            block.is_exist = false;
            proof {
                assert(blocks_view(self.blocks@) =~= g0.blocks.update(
                    k as int,
                    destroyed(g0.blocks[k as int]),
                ));
            }
            self.score = self.score + add;
            bounce_on_block(&mut self.bullet);
            self.requested_sounds.push(Sound::Hit);
        }
        proof {
            assert(self.bullet@ == b4);
            assert(blocks_view(self.blocks@) == blocks2);
            assert(self.score == score2);
            assert(self.requested_sounds@ == sounds3);
        }

        if !any_block_exists(&self.blocks) {
            self.is_clear = true;
        }
        proof {
            assert(self.is_clear == !has_existing_block(blocks2));
        }

        if self.displaying_score < self.score {
            self.displaying_score = self.displaying_score + DISPLAYING_SCORE_SPEED;
        }
        let ghost ds2 = if g0.displaying_score < score2 {
            g0.displaying_score + DISPLAYING_SCORE_SPEED as int
        } else {
            g0.displaying_score
        };
        proof {
            assert(self.displaying_score == ds2);
        }

        self.frame = self.frame + 1;

        proof {
            lemma_step_model_unfold(g0, command);
            lemma_step_model_wf(g0, command);
            assert(self@.bullet == step_model(g0, command).bullet);
            assert(self@.blocks == step_model(g0, command).blocks);
            assert(self@.requested_sounds == step_model(g0, command).requested_sounds);
            assert(self@ =~= step_model(g0, command));
        }
    }
}

} // verus!
