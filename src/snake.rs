//! The snake of the snake game: a chain of blocks that moves one cell per
//! step.
use vstd::prelude::*;
use crate::frame::Frame;
use crate::panel::{COLUMNS, ROWS};
use crate::pixel::Pixel;

verus! {

/// A direction of movement; `x` counts rows downwards, `y` columns rightwards.
#[derive(Clone, Copy, PartialEq, Eq, Debug, Structural)]
pub enum Direction {
    UP,
    DOWN,
    LEFT,
    RIGHT,
}

/// The reverse of `d`.
pub open spec fn opposite_of(d: Direction) -> Direction {
    match d {
        Direction::UP => Direction::DOWN,
        Direction::DOWN => Direction::UP,
        Direction::LEFT => Direction::RIGHT,
        Direction::RIGHT => Direction::LEFT,
    }
}

impl Direction {
    /// The reverse direction.
    pub fn opposite(&self) -> (r: Direction)
        ensures
            r == opposite_of(*self),
    {
        match *self {
            Direction::UP => Direction::DOWN,
            Direction::DOWN => Direction::UP,
            Direction::LEFT => Direction::RIGHT,
            Direction::RIGHT => Direction::LEFT,
        }
    }
}

/// One cell of the snake's body.
#[derive(Clone, Copy, PartialEq, Eq, Debug, Structural)]
pub struct Block {
    pub x: i32,
    pub y: i32,
}

/// Whether a step from `b` in any direction stays within `i32`.
pub open spec fn can_step(b: Block) -> bool {
    i32::MIN < b.x < i32::MAX && i32::MIN < b.y < i32::MAX
}

/// The cell next to `b` in direction `d`.
pub open spec fn step(b: Block, d: Direction) -> Block {
    match d {
        Direction::UP => Block { x: (b.x - 1) as i32, y: b.y },
        Direction::DOWN => Block { x: (b.x + 1) as i32, y: b.y },
        Direction::LEFT => Block { x: b.x, y: (b.y - 1) as i32 },
        Direction::RIGHT => Block { x: b.x, y: (b.y + 1) as i32 },
    }
}

/// The direction chosen by `dir`, else the current one.
pub open spec fn chosen(dir: Option<Direction>, current: Direction) -> Direction {
    match dir {
        Some(d) => d,
        None => current,
    }
}

/// Whether some block of `body` other than the last lies at (`x`, `y`).
pub open spec fn overlaps_except_tail(body: Seq<Block>, x: i32, y: i32) -> bool {
    exists|i: int| 0 <= i < body.len() - 1 && #[trigger] body[i] == (Block { x, y })
}

/// Whether some block of `body` lies at cell (`r`, `c`).
pub open spec fn covers(body: Seq<Block>, r: int, c: int) -> bool {
    exists|i: int| 0 <= i < body.len() && #[trigger] body[i].x == r && body[i].y == c
}

/// The snake: its body from head to tail, its direction of movement and
/// the tail block it dropped last.
pub struct Snake {
    pub snake_block: Pixel,
    pub moving_direction: Direction,
    pub body: Vec<Block>,
    pub last_removed_block: Option<Block>,
}

impl Snake {
    /// The direction the snake moves in.
    pub open spec fn direction(&self) -> Direction {
        self.moving_direction
    }

    /// The tail block the last move dropped.
    pub open spec fn last_removed(&self) -> Option<Block> {
        self.last_removed_block
    }

    /// The colour of the snake.
    pub open spec fn color(&self) -> Pixel {
        self.snake_block
    }

    /// The body has a head and a tail.
    pub open spec fn wf(&self) -> bool {
        self.body@.len() >= 2
    }

    /// The head block.
    pub open spec fn head(&self) -> Block {
        self.body@[0]
    }

    /// A green snake of five blocks moving right: three in a row ending at
    /// (`init_x`, `init_y`) and two trailing diagonally.
    pub fn new(init_x: i32, init_y: i32) -> (s: Snake)
        requires
            i32::MIN + 2 <= init_x <= i32::MAX - 2,
            i32::MIN + 2 <= init_y,
        ensures
            s.wf(),
            s.body@ == seq![
                Block { x: (init_x + 2) as i32, y: init_y },
                Block { x: (init_x + 1) as i32, y: init_y },
                Block { x: init_x, y: init_y },
                Block { x: (init_x - 1) as i32, y: (init_y - 1) as i32 },
                Block { x: (init_x - 2) as i32, y: (init_y - 2) as i32 },
            ],
            s.direction() == Direction::RIGHT,
            s.last_removed() is None,
            s.color() == (Pixel { r: 0, g: 255, b: 0 }),
    {
        let mut body: Vec<Block> = Vec::new();
        body.push(Block { x: init_x + 2, y: init_y });
        body.push(Block { x: init_x + 1, y: init_y });
        body.push(Block { x: init_x, y: init_y });
        body.push(Block { x: init_x - 1, y: init_y - 1 });
        body.push(Block { x: init_x - 2, y: init_y - 2 });
        let s = Snake {
            snake_block: Pixel::new_colored_pixel(0, 255, 0),
            moving_direction: Direction::RIGHT,
            body,
            last_removed_block: None,
        };
        assert(s.body@ =~= seq![
            Block { x: (init_x + 2) as i32, y: init_y },
            Block { x: (init_x + 1) as i32, y: init_y },
            Block { x: init_x, y: init_y },
            Block { x: (init_x - 1) as i32, y: (init_y - 1) as i32 },
            Block { x: (init_x - 2) as i32, y: (init_y - 2) as i32 },
        ]);
        s
    }

    /// Paints every body block that lies on the panel in the snake's colour.
    pub fn draw(&self, frame: &mut Frame)
        requires
            old(frame).wf(),
        ensures
            final(frame).wf(),
            final(frame).cursor() == old(frame).cursor(),
            final(frame).border() == old(frame).border(),
            forall|r: int, c: int|
                0 <= r < ROWS && 0 <= c < COLUMNS ==> #[trigger] final(frame).grid()[r][c] == if covers(
                    self.body@,
                    r,
                    c,
                ) {
                    self.color()
                } else {
                    old(frame).grid()[r][c]
                },
    {
        let color = self.snake_block;
        for i in 0..self.body.len()
            invariant
                frame.wf(),
                frame.pos == old(frame).pos,
                frame.border_pixel == old(frame).border_pixel,
                color == self.color(),
                forall|r: int, c: int|
                    0 <= r < ROWS && 0 <= c < COLUMNS ==> #[trigger] frame.pixels@[r]@[c] == if covers(
                        self.body@.subrange(0, i as int),
                        r,
                        c,
                    ) {
                        color
                    } else {
                        old(frame).pixels@[r]@[c]
                    },
        {
            let block = self.body[i];
            if 0 <= block.x && (block.x as usize) < ROWS && 0 <= block.y && (block.y as usize)
                < COLUMNS {
                frame.pixels[block.x as usize][block.y as usize] = color;
            }
            proof {
                let pre = self.body@.subrange(0, i as int);
                let post = self.body@.subrange(0, i + 1);
                assert forall|r: int, c: int| covers(post, r, c) == (covers(pre, r, c) || (
                block.x == r && block.y == c)) by {
                    if covers(post, r, c) {
                        let j = choose|j: int| 0 <= j < post.len() && #[trigger] post[j].x == r && post[j].y == c;
                        if j < i {
                            assert(pre[j].x == r && pre[j].y == c);
                        }
                    }
                    if covers(pre, r, c) {
                        let j = choose|j: int| 0 <= j < pre.len() && #[trigger] pre[j].x == r && pre[j].y == c;
                        assert(post[j].x == r && post[j].y == c);
                    }
                    if block.x == r && block.y == c {
                        assert(post[i as int].x == r && post[i as int].y == c);
                    }
                }
            }
        }
        proof {
            assert(self.body@.subrange(0, self.body@.len() as int) =~= self.body@);
        }
    }

    /// The head's coordinates.
    pub fn head_position(&self) -> (r: (i32, i32))
        requires
            self.wf(),
        ensures
            r == (self.head().x, self.head().y),
    {
        let head = self.body[0];
        (head.x, head.y)
    }

    /// The direction the snake moves in.
    pub fn head_direction(&self) -> (r: Direction)
        ensures
            r == self.direction(),
    {
        self.moving_direction
    }

    /// Where the head would go in direction `dir`, or in the current
    /// direction if `dir` is `None`.
    pub fn next_head_position(&self, dir: Option<Direction>) -> (r: (i32, i32))
        requires
            self.wf(),
            can_step(self.head()),
        ensures
            r == (step(self.head(), chosen(dir, self.direction())).x, step(
                self.head(),
                chosen(dir, self.direction()),
            ).y),
    {
        let (head_x, head_y) = self.head_position();
        let moving_dir = match dir {
            Some(d) => d,
            None => self.moving_direction,
        };
        match moving_dir {
            Direction::UP => (head_x - 1, head_y),
            Direction::DOWN => (head_x + 1, head_y),
            Direction::LEFT => (head_x, head_y - 1),
            Direction::RIGHT => (head_x, head_y + 1),
        }
    }

    /// Turns to `dir`, if given, and moves one cell: a new head in front,
    /// the tail block dropped and remembered.
    pub fn move_forward(&mut self, dir: Option<Direction>)
        requires
            old(self).wf(),
            can_step(old(self).head()),
        ensures
            final(self).wf(),
            final(self).direction() == chosen(dir, old(self).direction()),
            final(self).body@ == seq![step(old(self).head(), chosen(dir, old(self).direction()))]
                + old(self).body@.drop_last(),
            final(self).last_removed() == Some(old(self).body@.last()),
            final(self).color() == old(self).color(),
    {
        if let Some(d) = dir {
            self.moving_direction = d;
        }
        let (last_x, last_y) = self.head_position();
        let new_block = match self.moving_direction {
            Direction::UP => Block { x: last_x - 1, y: last_y },
            Direction::DOWN => Block { x: last_x + 1, y: last_y },
            Direction::LEFT => Block { x: last_x, y: last_y - 1 },
            Direction::RIGHT => Block { x: last_x, y: last_y + 1 },
        };
        self.body.insert(0, new_block);
        let removed = self.body.pop();
        self.last_removed_block = removed;
        proof {
            assert(self.body@ =~= seq![new_block] + old(self).body@.drop_last());
        }
    }

    /// Puts the last dropped tail block back at the end of the body.
    pub fn restore_last_removed(&mut self)
        requires
            old(self).last_removed() is Some,
        ensures
            final(self).body@ == old(self).body@.push(old(self).last_removed()->0),
            final(self).direction() == old(self).direction(),
            final(self).last_removed() == old(self).last_removed(),
            final(self).color() == old(self).color(),
    {
        if let Some(blk) = self.last_removed_block {
            self.body.push(blk);
        }
    }

    /// Whether a block other than the tail lies at (`x`, `y`).
    pub fn is_overlap_except_tail(&self, x: i32, y: i32) -> (r: bool)
        requires
            self.wf(),
        ensures
            r == overlaps_except_tail(self.body@, x, y),
    {
        let n = self.body.len() - 1;
        for i in 0..n
            invariant
                n == self.body@.len() - 1,
                forall|j: int| 0 <= j < i ==> #[trigger] self.body@[j] != (Block { x, y }),
        {
            let block = self.body[i];
            if x == block.x && y == block.y {
                return true;
            }
        }
        false
    }
}

} // verus!
