//! The snake game played on the panel: the snake moves on a timer, turns on
//! key presses, dies on walls and on itself, and the game restarts after a
//! pause.
use vstd::prelude::*;
use rand::Rng;
use crate::frame::{border_color, next_cursor, on_border, window, Frame};
use crate::image::Image;
use crate::panel::{COLUMNS, ROWS};
use crate::pixel::Pixel;
use crate::snake::{chosen, covers, opposite_of, overlaps_except_tail, step, Block, Direction, Snake};

verus! {

/// Milliseconds between two moves of the snake.
pub const MOVING_PERIOD_MILLIS: i64 = 200;
/// Milliseconds a lost game is shown before it restarts.
pub const RESTART_TIME_MILLIS: i64 = 3000;
/// Random cells tried per update when placing food.
pub const FOOD_ATTEMPTS: u32 = 64;

/// Relies on `rand::Rng::gen_range` (rand 0.7) of the thread-local
/// generator: a value in `[low, high)`; it panics when `low >= high`.
#[verifier::external_body]
fn random_in_range(low: i32, high: i32) -> (r: i32)
    requires
        low < high,
    ensures
        low <= r < high,
{
    rand::thread_rng().gen_range(low, high)
}

/// State of one game.
pub struct Game {
    pub snake: Snake,
    pub food_exist: bool,
    pub food_x: i32,
    pub food_y: i32,
    pub food_block: Pixel,
    pub width: i32,
    pub height: i32,
    pub is_game_over: bool,
}

impl Game {
    /// The board is the panel and the snake's head is near it.
    pub open spec fn wf(&self) -> bool {
        &&& self.snake.wf()
        &&& self.width == COLUMNS
        &&& self.height == ROWS
        &&& -100 < self.snake.head().x < 100
        &&& -100 < self.snake.head().y < 100
    }

    /// Where the head goes next when turning to `dir` (or not turning).
    pub open spec fn next_head(&self, dir: Option<Direction>) -> Block {
        step(self.snake.head(), chosen(dir, self.snake.moving_direction))
    }

    /// Whether the snake survives its next move: the new head hits neither
    /// its own body (the tail moves away) nor the outermost cells.
    pub open spec fn survives(&self, dir: Option<Direction>) -> bool {
        let n = self.next_head(dir);
        &&& !overlaps_except_tail(self.snake.body@, n.x, n.y)
        &&& 0 < n.x < self.height - 1
        &&& 0 < n.y < self.width - 1
    }

    /// `after` is `before` with the snake moved when turning to `dir`, or
    /// with the game lost if the move would kill it; nothing else changes.
    pub open spec fn moved(before: Game, after: Game, dir: Option<Direction>) -> bool {
        &&& after.food_exist == before.food_exist
        &&& after.food_x == before.food_x
        &&& after.food_y == before.food_y
        &&& after.food_block == before.food_block
        &&& after.width == before.width
        &&& after.height == before.height
        &&& if before.survives(dir) {
            &&& after.snake.body@ == seq![before.next_head(dir)] + before.snake.body@.drop_last()
            &&& after.snake.moving_direction == chosen(dir, before.snake.moving_direction)
            &&& after.snake.last_removed_block == Some(before.snake.body@.last())
            &&& after.snake.snake_block == before.snake.snake_block
            &&& after.is_game_over == before.is_game_over
        } else {
            &&& after.snake == before.snake
            &&& after.is_game_over
        }
    }

    /// The state of a game that has just begun.
    pub open spec fn fresh(g: Game) -> bool {
        &&& g.snake.body@ == seq![
            Block { x: 4, y: 2 },
            Block { x: 3, y: 2 },
            Block { x: 2, y: 2 },
            Block { x: 1, y: 1 },
            Block { x: 0, y: 0 },
        ]
        &&& g.snake.moving_direction == Direction::RIGHT
        &&& g.snake.last_removed_block is None
        &&& g.snake.snake_block == (Pixel { r: 0, g: 255, b: 0 })
        &&& g.food_exist
        &&& g.food_x == 5
        &&& g.food_y == 3
        &&& !g.is_game_over
    }

    /// A new game: a snake at (2, 2) moving right, food at (5, 3).
    pub fn new() -> (g: Game)
        ensures
            g.wf(),
            Game::fresh(g),
            g.food_block == (Pixel { r: 255, g: 0, b: 0 }),
    {
        Game {
            snake: Snake::new(2, 2),
            food_exist: true,
            food_x: 5,
            food_y: 3,
            food_block: Pixel::new_colored_pixel(255, 0, 0),
            width: COLUMNS as i32,
            height: ROWS as i32,
            is_game_over: false,
        }
    }

    /// Turns the snake to `dir` and moves it, unless no key was pressed or
    /// the key points back where the snake comes from.
    pub fn key_pressed(&mut self, dir: Option<Direction>)
        requires
            old(self).wf(),
        ensures
            final(self).wf(),
            match dir {
                None => *final(self) == *old(self),
                Some(d) => if d == opposite_of(old(self).snake.moving_direction) {
                    *final(self) == *old(self)
                } else {
                    Game::moved(*old(self), *final(self), dir)
                },
            },
    {
        let d = match dir {
            None => {
                return;
            },
            Some(d) => d,
        };
        if d == self.snake.head_direction().opposite() {
            return;
        }
        self.update_snake(dir);
    }

    /// Whether the game is lost.
    pub fn is_game_over(&self) -> (r: bool)
        ensures
            r == self.is_game_over,
    {
        self.is_game_over
    }

    /// Whether the snake survives its next move when turning to `dir`.
    pub fn check_if_the_snake_alive(&self, dir: Option<Direction>) -> (r: bool)
        requires
            self.wf(),
        ensures
            r == self.survives(dir),
    {
        let (next_x, next_y) = self.snake.next_head_position(dir);
        if self.snake.is_overlap_except_tail(next_x, next_y) {
            return false;
        }
        next_x > 0 && next_y > 0 && next_x < self.height - 1 && next_y < self.width - 1
    }

    fn update_snake(&mut self, dir: Option<Direction>)
        requires
            old(self).wf(),
        ensures
            final(self).wf(),
            Game::moved(*old(self), *final(self), dir),
    {
        if self.check_if_the_snake_alive(dir) {
            self.snake.move_forward(dir);
        } else {
            self.is_game_over = true;
        }
    }

    /// Puts the food at (`x`, `y`) unless a block of the snake other than
    /// its tail lies there; returns whether it did.
    pub fn place_food(&mut self, x: i32, y: i32) -> (placed: bool)
        requires
            old(self).wf(),
        ensures
            final(self).wf(),
            placed == !overlaps_except_tail(old(self).snake.body@, x, y),
            placed ==> *final(self) == (Game { food_exist: true, food_x: x, food_y: y, ..*old(self) }),
            !placed ==> *final(self) == *old(self),
    {
        if self.snake.is_overlap_except_tail(x, y) {
            return false;
        }
        self.food_x = x;
        self.food_y = y;
        self.food_exist = true;
        true
    }

    /// Tries random inner cells of the board until the food lands on one
    /// that the snake does not cover, at most `FOOD_ATTEMPTS` times.
    fn add_food(&mut self)
        requires
            old(self).wf(),
        ensures
            final(self).wf(),
            final(self).snake == old(self).snake,
            final(self).is_game_over == old(self).is_game_over,
            final(self).food_block == old(self).food_block,
            final(self).food_exist ==> (old(self).food_exist && final(self).food_x == old(
                self,
            ).food_x && final(self).food_y == old(self).food_y) || (1 <= final(self).food_x
                < ROWS - 1 && 1 <= final(self).food_y < COLUMNS - 1
                && !overlaps_except_tail(old(self).snake.body@, final(self).food_x, final(self).food_y)),
            !final(self).food_exist ==> !old(self).food_exist,
    {
        let mut attempt: u32 = 0;
        while attempt < FOOD_ATTEMPTS
            invariant
                self.wf(),
                self.snake == old(self).snake,
                self.is_game_over == old(self).is_game_over,
                self.food_block == old(self).food_block,
                self.food_exist == old(self).food_exist,
                self.food_x == old(self).food_x,
                self.food_y == old(self).food_y,
            decreases FOOD_ATTEMPTS - attempt,
        {
            let new_x = random_in_range(1, self.height - 1);
            let new_y = random_in_range(1, self.width - 1);
            if self.place_food(new_x, new_y) {
                return;
            }
            attempt = attempt + 1;
        }
    }

    fn restart(&mut self)
        requires
            old(self).wf(),
        ensures
            final(self).wf(),
            Game::fresh(*final(self)),
            final(self).food_block == old(self).food_block,
    {
        self.snake = Snake::new(2, 2);
        self.food_exist = true;
        self.food_x = 5;
        self.food_y = 3;
        self.is_game_over = false;
    }

    /// Advances the game `elapsed_millis` after the last move: a lost game
    /// restarts once the restart pause has passed; otherwise missing food
    /// is placed and, once the moving period has passed, the snake moves.
    /// Returns whether the snake moved (or died trying).
    pub fn update(&mut self, elapsed_millis: i64) -> (r: bool)
        requires
            old(self).wf(),
        ensures
            final(self).wf(),
            r == (!old(self).is_game_over && elapsed_millis >= MOVING_PERIOD_MILLIS),
            old(self).is_game_over && elapsed_millis >= RESTART_TIME_MILLIS ==> Game::fresh(
                *final(self),
            ),
            old(self).is_game_over && elapsed_millis < RESTART_TIME_MILLIS ==> *final(self) == *old(
                self,
            ),
            !old(self).is_game_over && old(self).food_exist ==> (final(self).food_exist
                && final(self).food_x == old(self).food_x && final(self).food_y == old(self).food_y),
            !old(self).is_game_over && !old(self).food_exist && final(self).food_exist ==> 1
                <= final(self).food_x < ROWS - 1 && 1 <= final(self).food_y < COLUMNS - 1
                && !overlaps_except_tail(old(self).snake.body@, final(self).food_x, final(self).food_y),
            !old(self).is_game_over && elapsed_millis >= MOVING_PERIOD_MILLIS ==> Game::moved(
                Game { food_exist: final(self).food_exist, food_x: final(self).food_x, food_y: final(self).food_y, ..*old(self) },
                *final(self),
                None,
            ),
            !old(self).is_game_over && elapsed_millis < MOVING_PERIOD_MILLIS ==> (final(self).snake
                == old(self).snake && !final(self).is_game_over),
    {
        if self.is_game_over {
            if elapsed_millis >= RESTART_TIME_MILLIS {
                self.restart();
            }
            return false;
        }
        if !self.food_exist {
            self.add_food();
        }
        if elapsed_millis >= MOVING_PERIOD_MILLIS {
            self.update_snake(None);
            return true;
        }
        false
    }

    /// Draws the game: a black board with the snake, the food and the
    /// border, or, once the game is lost, the next window of `game_over`.
    pub fn draw(&self, frame: &mut Frame, game_over: &Image)
        requires
            old(frame).wf(),
            game_over.can_feed_panel(),
        ensures
            final(frame).wf(),
            self.is_game_over ==> final(frame).grid() == window(
                game_over.grid(),
                game_over.width as nat,
                old(frame).cursor(),
            ) && final(frame).cursor() == next_cursor(old(frame).cursor(), game_over.width as nat),
            !self.is_game_over ==> final(frame).cursor() == old(frame).cursor() && forall|r: int, c: int|
                0 <= r < ROWS && 0 <= c < COLUMNS ==> #[trigger] final(frame).grid()[r][c] == if on_border(r, c) {
                    border_color()
                } else if self.food_exist && r == self.food_x && c == self.food_y {
                    self.food_block
                } else if covers(self.snake.body@, r, c) {
                    self.snake.snake_block
                } else {
                    Pixel { r: 0, g: 0, b: 0 }
                },
    {
        frame.clear_frame();
        self.snake.draw(frame);
        let ghost drawn = frame.grid();
        if self.food_exist && 0 <= self.food_x && (self.food_x as usize) < ROWS && 0 <= self.food_y
            && (self.food_y as usize) < COLUMNS {
            frame.pixels[self.food_x as usize][self.food_y as usize] = self.food_block;
        }
        assert forall|r: int, c: int| 0 <= r < ROWS && 0 <= c < COLUMNS implies #[trigger] frame.grid()[r][c] == if self.food_exist && r == self.food_x && c == self.food_y {
            self.food_block
        } else if covers(self.snake.body@, r, c) {
            self.snake.snake_block
        } else {
            Pixel { r: 0, g: 0, b: 0 }
        } by {
            assert(drawn[r][c] == frame.pixels@[r]@[c] || (r == self.food_x && c == self.food_y));
        }
        frame.draw_border();
        if self.is_game_over {
            frame.draw_game_over(game_over);
        }
    }
}

} // verus!
