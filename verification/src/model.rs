//! The data model of the game: screen and layout constants, the paddle
//! ("player"), the ball ("bullet"), the destructible blocks, and the
//! aggregate [`Game`] state. Each executable type has a mathematical view
//! (`PlayerModel`, `BulletModel`, ...) over `int` values, and the whole
//! state has a well-formedness invariant [`GameModel::wf`] that construction
//! establishes and every simulation step preserves.

use vstd::prelude::*;

use crate::geometry::clamp;
use crate::geometry::clamp_int;

verus! {

pub const PLAYER_WIDTH: i32 = 40;

pub const PLAYER_HEIGHT: i32 = 8;

pub const BULLET_SIZE: i32 = 8;

/// Largest magnitude the ball's vertical speed may reach through speed-ups.
pub const BULLET_SPEED_Y_MAX: i32 = 10;

pub const BLOCK_WIDTH: i32 = 40;

pub const BLOCK_HEIGHT: i32 = 10;

pub const MARGIN_TOP: i32 = 25;

pub const MARGIN_LEFT: i32 = 15;

pub const MARGIN_RIGHT: i32 = MARGIN_LEFT - PADDING_X;

pub const PADDING_X: i32 = 5;

pub const PADDING_Y: i32 = 5;

pub const BLOCK_COUNT_PER_ROW: i32 = 10;

pub const ROW_COUNT_PER_COLOR: i32 = 2;

pub const SCREEN_WIDTH: i32 = MARGIN_LEFT + BLOCK_COUNT_PER_ROW * (BLOCK_WIDTH + PADDING_X)
    + MARGIN_RIGHT;

pub const SCREEN_HEIGHT: i32 = 380;

/// Ground value of [`SCREEN_WIDTH`]; the solver does not fold the product of
/// named constants on its own.
pub proof fn lemma_screen_width()
    ensures
        SCREEN_WIDTH == 475,
{
    assert(BLOCK_COUNT_PER_ROW * (BLOCK_WIDTH + PADDING_X) == 450) by (nonlinear_arith)
        requires
            BLOCK_COUNT_PER_ROW == 10,
            BLOCK_WIDTH == 40,
            PADDING_X == 5,
    ;
}

/// The paddle movement applied per frame while a direction key is held.
pub const PLAYER_SPEED: i32 = 8;

/// Points the displayed score catches up by per frame while it trails the
/// real score.
pub const DISPLAYING_SCORE_SPEED: i32 = 10;

/// Invulnerable-paddle mode: the paddle deflects the ball across the whole
/// screen width instead of only over its own edge. A compile-time toggle,
/// not a runtime state.
pub const IS_MIGHTY: bool = true;

/// The discrete per-frame input, sampled from continuous key state by the
/// driver.
pub enum Command {
    /// No direction key held this frame.
    Neutral,
    Left,
    Right,
}

/// Symbolic sound events the simulation requests; the audio collaborator
/// drains them once per frame and resolves each to a preloaded asset.
#[derive(Clone, Copy, Debug, PartialEq, Eq)]
pub enum Sound {
    /// The ball bounced off the paddle or destroyed a block.
    Hit,
    /// The ball fell past the bottom of the screen.
    Crash,
}

/// Block colors, in fixed top-to-bottom row order; each maps to a score
/// value.
#[derive(Clone, Copy, Debug, PartialEq, Eq)]
pub enum Color {
    Red,
    Yellow,
    Green,
}

/// The score awarded for destroying a block of color `c`.
pub open spec fn block_value(c: Color) -> int {
    match c {
        Color::Red => 400,
        Color::Yellow => 200,
        Color::Green => 100,
    }
}

/// The user-controlled paddle. `y` never changes; `x` is clamped to the
/// screen.
pub struct Player {
    pub x: i32,
    pub y: i32,
}

/// Mathematical view of a [`Player`].
pub struct PlayerModel {
    pub x: int,
    pub y: int,
}

impl View for Player {
    type V = PlayerModel;

    open spec fn view(&self) -> PlayerModel {
        PlayerModel { x: self.x as int, y: self.y as int }
    }
}

/// The paddle's position in a fresh game: horizontally centered, a little
/// above the bottom edge.
pub open spec fn player_init() -> PlayerModel {
    PlayerModel {
        x: SCREEN_WIDTH as int / 2 - PLAYER_WIDTH as int / 2,
        y: SCREEN_HEIGHT - PLAYER_HEIGHT - 10,
    }
}

impl Player {
    pub fn new() -> (player: Player)
        ensures
            player@ == player_init(),
    {
        let player = Player {
            x: SCREEN_WIDTH / 2 - PLAYER_WIDTH / 2,
            y: SCREEN_HEIGHT - PLAYER_HEIGHT - 10,
        };
        player
    }

    /// Shift the paddle by `delta` pixels, clamped to the screen.
    pub fn do_move(&mut self, delta: i32)
        requires
            i32::MIN <= old(self)@.x + delta <= i32::MAX,
        ensures
            final(self)@.x == clamp_int(0, old(self)@.x + delta, SCREEN_WIDTH - PLAYER_WIDTH),
            final(self)@.y == old(self)@.y,
    {
        self.x = clamp(0, self.x + delta, SCREEN_WIDTH - PLAYER_WIDTH);
    }
}

/// The single moving projectile, bounced between paddle, walls and blocks.
#[derive(Clone)]
pub struct Bullet {
    pub x: i32,
    pub y: i32,
    pub vx: i32,
    pub vy: i32,
    pub is_exist: bool,
}

/// Mathematical view of a [`Bullet`].
pub struct BulletModel {
    pub x: int,
    pub y: int,
    pub vx: int,
    pub vy: int,
    pub is_exist: bool,
}

impl View for Bullet {
    type V = BulletModel;

    open spec fn view(&self) -> BulletModel {
        BulletModel {
            x: self.x as int,
            y: self.y as int,
            vx: self.vx as int,
            vy: self.vy as int,
            is_exist: self.is_exist,
        }
    }
}

/// One Euler integration step: the ball advances by its velocity.
pub open spec fn bullet_moved(b: BulletModel) -> BulletModel {
    BulletModel { x: b.x + b.vx, y: b.y + b.vy, ..b }
}

impl Bullet {
    /// Advance the ball one frame along its velocity.
    pub fn do_move(&mut self)
        requires
            i32::MIN <= old(self)@.x + old(self)@.vx <= i32::MAX,
            i32::MIN <= old(self)@.y + old(self)@.vy <= i32::MAX,
        ensures
            final(self)@ == bullet_moved(old(self)@),
    {
        self.x = self.x + self.vx;
        self.y = self.y + self.vy;
    }
}

/// A destructible block. A destroyed block stays in the collection as a
/// tombstone with `is_exist == false`; blocks never move or reallocate.
pub struct Block {
    pub x: i32,
    pub y: i32,
    pub is_exist: bool,
    pub color: Color,
}

/// Mathematical view of a [`Block`].
pub struct BlockModel {
    pub x: int,
    pub y: int,
    pub is_exist: bool,
    pub color: Color,
}

impl View for Block {
    type V = BlockModel;

    open spec fn view(&self) -> BlockModel {
        BlockModel { x: self.x as int, y: self.y as int, is_exist: self.is_exist, color: self.color }
    }
}

/// The views of a sequence of blocks, element by element.
pub open spec fn blocks_view(blocks: Seq<Block>) -> Seq<BlockModel> {
    blocks.map_values(|b: Block| b@)
}

impl Block {
    /// The points this block is worth when destroyed.
    pub fn get_score(&self) -> (score: i32)
        ensures
            score == block_value(self.color),
    {
        match self.color {
            Color::Red => 400,
            Color::Yellow => 200,
            Color::Green => 100,
        }
    }
}

/// The whole game state, advanced in place once per frame by
/// [`Game::update`].
pub struct Game {
    pub is_clear: bool,
    pub is_over: bool,
    pub frame: i32,
    pub player: Player,
    pub score: i32,
    pub displaying_score: i32,
    pub bullet: Bullet,
    pub blocks: Vec<Block>,
    pub requested_sounds: Vec<Sound>,
}

/// Mathematical view of a [`Game`].
#[verifier::ext_equal]
pub struct GameModel {
    pub is_clear: bool,
    pub is_over: bool,
    pub frame: int,
    pub player: PlayerModel,
    pub score: int,
    pub displaying_score: int,
    pub bullet: BulletModel,
    pub blocks: Seq<BlockModel>,
    pub requested_sounds: Seq<Sound>,
}

impl View for Game {
    type V = GameModel;

    open spec fn view(&self) -> GameModel {
        GameModel {
            is_clear: self.is_clear,
            is_over: self.is_over,
            frame: self.frame as int,
            player: self.player@,
            score: self.score as int,
            displaying_score: self.displaying_score as int,
            bullet: self.bullet@,
            blocks: blocks_view(self.blocks@),
            requested_sounds: self.requested_sounds@,
        }
    }
}

impl GameModel {
    /// Well-formedness of a running game. A terminal state (game over or
    /// cleared) is frozen, so no further constraint is needed there; in a
    /// live state the paddle sits on its fixed row within the screen, the
    /// ball is inside the screen with bounded speed, the blocks lie on
    /// screen, and the counters are non-negative.
    pub open spec fn wf(self) -> bool {
        self.is_over || self.is_clear || (
        0 <= self.player.x <= SCREEN_WIDTH - PLAYER_WIDTH
            && self.player.y == SCREEN_HEIGHT - PLAYER_HEIGHT - 10
            && 0 <= self.bullet.x <= SCREEN_WIDTH - BULLET_SIZE
            && 0 <= self.bullet.y < SCREEN_HEIGHT
            && -BULLET_SPEED_Y_MAX <= self.bullet.vx <= BULLET_SPEED_Y_MAX
            && -BULLET_SPEED_Y_MAX <= self.bullet.vy <= BULLET_SPEED_Y_MAX
            && (forall|k: int|
            0 <= k < self.blocks.len() ==> 0 <= #[trigger] self.blocks[k].x <= SCREEN_WIDTH
                - BLOCK_WIDTH && 0 <= self.blocks[k].y <= SCREEN_HEIGHT - BLOCK_HEIGHT)
            && 0 <= self.score
            && 0 <= self.displaying_score <= self.score + DISPLAYING_SCORE_SPEED - 1
            && 0 <= self.frame
        )
    }
}

} // verus!
