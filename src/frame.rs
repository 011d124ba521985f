//! The frame buffer: exactly what the panel shows, and a horizontal scroll
//! cursor into a wider source image.
use vstd::prelude::*;
use crate::image::{black_grid, uniform_grid, Image};
use crate::panel::{COLUMNS, ROWS};
use crate::pixel::Pixel;
use vstd::arithmetic::div_mod::{lemma_add_mod_noop, lemma_mod_self_0, lemma_small_mod};

verus! {

/// Colour of the border drawn around the playing field.
pub open spec fn border_color() -> Pixel {
    Pixel { r: 230, g: 230, b: 230 }
}

/// The cursor after one scroll step over a source `width` columns wide.
pub open spec fn next_cursor(cursor: nat, width: nat) -> nat {
    if cursor + 1 >= width {
        0
    } else {
        cursor + 1
    }
}

/// The cursor after `n` scroll steps.
pub open spec fn cursor_after(cursor: nat, width: nat, n: nat) -> nat
    decreases n,
{
    if n == 0 {
        cursor
    } else {
        next_cursor(cursor_after(cursor, width, (n - 1) as nat), width)
    }
}

/// What the panel shows of `image` with the cursor at `cursor`: panel column
/// `c` shows source column `(cursor + c) mod width`, rows unchanged.
pub open spec fn window(image: Seq<Seq<Pixel>>, width: nat, cursor: nat) -> Seq<Seq<Pixel>> {
    Seq::new(
        ROWS as nat,
        |r: int| Seq::new(COLUMNS as nat, |c: int| image[r][((cursor + c) % (width as int))]),
    )
}

/// Scrolling is cyclic: from a cursor inside a source `width` columns
/// wide, `n` steps bring the cursor to `(cursor + n) mod width`, so after
/// exactly `width` steps it is back where it started and every later window
/// repeats the one shown `width` steps earlier.
pub proof fn lemma_scroll_cycle(image: Seq<Seq<Pixel>>, width: nat, cursor: nat, n: nat)
    requires
        cursor < width,
    ensures
        cursor_after(cursor, width, n) == ((cursor + n) as int) % (width as int),
        cursor_after(cursor, width, width) == cursor,
        cursor_after(cursor, width, n + width) == cursor_after(cursor, width, n),
        window(image, width, cursor_after(cursor, width, n + width)) == window(
            image,
            width,
            cursor_after(cursor, width, n),
        ),
{
    lemma_cursor_after_mod(width, cursor, n);
    lemma_cursor_after_mod(width, cursor, width);
    lemma_cursor_after_mod(width, cursor, n + width);
    lemma_add_mod_noop((cursor + n) as int, width as int, width as int);
    lemma_mod_self_0(width as int);
    lemma_small_mod(cursor, width);
    lemma_add_mod_noop(cursor as int, width as int, width as int);
    lemma_small_mod((cursor + n) as nat % width, width);
}

proof fn lemma_cursor_after_mod(width: nat, cursor: nat, n: nat)
    requires
        cursor < width,
    ensures
        cursor_after(cursor, width, n) == ((cursor + n) as int) % (width as int),
    decreases n,
{
    if n == 0 {
        lemma_small_mod(cursor, width);
    } else {
        lemma_cursor_after_mod(width, cursor, (n - 1) as nat);
        let w = width as int;
        let prev = ((cursor + n - 1) as int) % w;
        assert(0 <= prev < w);
        lemma_add_mod_noop((cursor + n - 1) as int, 1, w);
        assert((prev + (1int % w)) % w == ((cursor + n) as int) % w);
        if w == 1 {
            lemma_mod_self_0(1);
            assert(prev == 0);
            assert(((cursor + n) as int) % w == 0);
        } else {
            lemma_small_mod(1, width);
            if prev + 1 >= w {
                lemma_mod_self_0(w);
            } else {
                lemma_small_mod((prev + 1) as nat, width);
            }
        }
    }
}

/// `after` is `before` advanced one scroll step over a source image with
/// pixels `image` and width `width`.
pub open spec fn scroll_step(before: Frame, after: Frame, image: Seq<Seq<Pixel>>, width: nat) -> bool {
    &&& after.wf()
    &&& after.grid() == window(image, width, before.cursor())
    &&& after.cursor() == next_cursor(before.cursor(), width)
}

/// Consecutive scroll steps over one source image `width` columns wide,
/// starting from a cursor inside it: after `k` steps the cursor is at
/// `(start + k) mod width`, so after exactly `width` steps it is back where
/// it started, and from the first step on every frame repeats the frame
/// shown `width` steps earlier.
pub proof fn lemma_scroll_chain(frames: Seq<Frame>, image: Seq<Seq<Pixel>>, width: nat)
    requires
        frames.len() > 0,
        frames[0].cursor() < width,
        forall|k: int|
            0 <= k < frames.len() - 1 ==> scroll_step(
                #[trigger] frames[k],
                frames[k + 1],
                image,
                width,
            ),
    ensures
        forall|k: int|
            0 <= k < frames.len() ==> #[trigger] frames[k].cursor() == ((frames[0].cursor() + k)
                % (width as int)),
        frames.len() > width ==> frames[width as int].cursor() == frames[0].cursor(),
        forall|k: int|
            1 <= k && k + width < frames.len() ==> #[trigger] frames[k + width].grid()
                == frames[k].grid(),
{
    let c0 = frames[0].cursor();
    assert forall|k: int| 0 <= k < frames.len() implies #[trigger] frames[k].cursor()
        == cursor_after(c0, width, k as nat) by {
        lemma_chain_cursor(frames, image, width, k as nat);
    }
    assert forall|k: int| 0 <= k < frames.len() implies #[trigger] frames[k].cursor() == ((c0 + k)
        % (width as int)) by {
        lemma_scroll_cycle(image, width, c0, k as nat);
    }
    if frames.len() > width {
        lemma_scroll_cycle(image, width, c0, width);
    }
    assert forall|k: int| 1 <= k && k + width < frames.len() implies #[trigger] frames[k
        + width].grid() == frames[k].grid() by {
        let j = (k - 1) as nat;
        assert(frames[k - 1].cursor() == cursor_after(c0, width, j));
        assert(frames[k - 1 + width].cursor() == cursor_after(c0, width, j + width));
        assert(scroll_step(frames[k - 1], frames[k], image, width));
        assert(scroll_step(frames[k - 1 + width], frames[k + width], image, width));
        lemma_scroll_cycle(image, width, c0, j);
    }
}

proof fn lemma_chain_cursor(frames: Seq<Frame>, image: Seq<Seq<Pixel>>, width: nat, k: nat)
    requires
        k < frames.len(),
        forall|i: int|
            0 <= i < frames.len() - 1 ==> scroll_step(
                #[trigger] frames[i],
                frames[i + 1],
                image,
                width,
            ),
    ensures
        frames[k as int].cursor() == cursor_after(frames[0].cursor(), width, k),
    decreases k,
{
    if k > 0 {
        lemma_chain_cursor(frames, image, width, (k - 1) as nat);
        assert(scroll_step(frames[k - 1], frames[k as int], image, width));
    }
}

/// Whether cell (`r`, `c`) lies on the border of the panel.
pub open spec fn on_border(r: int, c: int) -> bool {
    r == 0 || r == ROWS - 1 || c == 0 || c == COLUMNS - 1
}

/// The pixels currently shown on the panel.
pub struct Frame {
    pub border_pixel: Pixel,
    pub pos: usize,
    pub pixels: Vec<Vec<Pixel>>,
}

impl Frame {
    /// The pixels, row by row.
    pub open spec fn grid(&self) -> Seq<Seq<Pixel>> {
        self.pixels@.map_values(|row: Vec<Pixel>| row@)
    }

    /// The scroll cursor.
    pub open spec fn cursor(&self) -> nat {
        self.pos as nat
    }

    /// The colour used for borders.
    pub open spec fn border(&self) -> Pixel {
        self.border_pixel
    }

    /// The grid has the panel's size, the cursor fits a source width and
    /// borders are drawn in the border colour.
    pub open spec fn wf(&self) -> bool {
        &&& self.border() == border_color()
        &&& self.pixels@.len() == ROWS
        &&& forall|r: int| 0 <= r < ROWS ==> #[trigger] self.pixels@[r]@.len() == COLUMNS
        &&& self.cursor() < u32::MAX
    }

    /// A black frame with the cursor at column 0.
    pub fn new() -> (f: Frame)
        ensures
            f.wf(),
            f.cursor() == 0,
            f.border() == border_color(),
            f.grid() == uniform_grid(ROWS as nat, COLUMNS as nat, Pixel { r: 0, g: 0, b: 0 }),
    {
        Frame {
            border_pixel: Pixel::new_colored_pixel(230, 230, 230),
            pos: 0,
            pixels: black_grid(ROWS, COLUMNS),
        }
    }

    /// The scroll cursor: the source column shown in panel column 0.
    pub fn position(&self) -> (r: usize)
        ensures
            r == self.cursor(),
    {
        self.pos
    }

    /// Shows the next window of `image`: every cell takes the source pixel
    /// of its row at column `(cursor + col) mod width`, then the cursor moves
    /// one column, wrapping at the source width.
    pub fn next_image_frame(&mut self, image: &Image)
        requires
            old(self).wf(),
            image.can_feed_panel(),
        ensures
            final(self).wf(),
            final(self).grid() == window(image.grid(), image.width as nat, old(self).cursor()),
            final(self).cursor() == next_cursor(old(self).cursor(), image.width as nat),
            scroll_step(*old(self), *final(self), image.grid(), image.width as nat),
            final(self).cursor() < image.width,
            final(self).border() == old(self).border(),
    {
        let width = image.width as usize;
        let pos = self.pos;
        let ghost src = image.grid();
        for row in 0..ROWS
            invariant
                self.wf(),
                self.pos == pos,
                self.border() == old(self).border(),
                image.can_feed_panel(),
                width == image.width,
                src == image.grid(),
                pos < u32::MAX,
                forall|r: int, c: int|
                    0 <= r < row && 0 <= c < COLUMNS ==> #[trigger] self.pixels@[r]@[c]
                        == src[r][((pos + c) % (width as int))],
        {
            for col in 0..COLUMNS
                invariant
                    self.wf(),
                    self.pos == pos,
                    self.border() == old(self).border(),
                    image.can_feed_panel(),
                    width == image.width,
                    src == image.grid(),
                    pos < u32::MAX,
                    row < ROWS,
                    forall|r: int, c: int|
                        0 <= r < row && 0 <= c < COLUMNS ==> #[trigger] self.pixels@[r]@[c]
                            == src[r][((pos + c) % (width as int))],
                    forall|c: int|
                        0 <= c < col ==> #[trigger] self.pixels@[row as int]@[c]
                            == src[row as int][((pos + c) % (width as int))],
            {
                let img_pos = ((pos as u64 + col as u64) % (width as u64)) as usize;
                assert(image.pixels@[row as int]@.len() == width);
                let p = image.pixels[row][img_pos];
                self.pixels[row][col] = p;
            }
        }
        assert forall|r: int| 0 <= r < ROWS implies #[trigger] self.grid()[r] =~= window(
            src,
            width as nat,
            pos as nat,
        )[r] by {}
        assert(self.grid() =~= window(src, width as nat, pos as nat));
        self.pos = self.pos + 1;
        if self.pos >= width {
            self.pos = 0;
        }
    }

    /// Paints every cell black; the cursor stays.
    pub fn clear_frame(&mut self)
        requires
            old(self).wf(),
        ensures
            final(self).wf(),
            final(self).grid() == uniform_grid(ROWS as nat, COLUMNS as nat, Pixel { r: 0, g: 0, b: 0 }),
            final(self).cursor() == old(self).cursor(),
            final(self).border() == old(self).border(),
    {
        self.pixels = black_grid(ROWS, COLUMNS);
    }

    /// Paints the outermost rows and columns in the border colour and
    /// leaves the other cells as they are.
    pub fn draw_border(&mut self)
        requires
            old(self).wf(),
        ensures
            final(self).wf(),
            final(self).cursor() == old(self).cursor(),
            final(self).border() == old(self).border(),
            forall|r: int, c: int|
                0 <= r < ROWS && 0 <= c < COLUMNS ==> #[trigger] final(self).grid()[r][c] == if on_border(r, c) {
                    border_color()
                } else {
                    old(self).grid()[r][c]
                },
    {
        let border = self.border_pixel;
        for row in 0..ROWS
            invariant
                self.wf(),
                self.pos == old(self).pos,
                self.border_pixel == border,
                border == old(self).border(),
                forall|r: int, c: int|
                    0 <= r < ROWS && 0 <= c < COLUMNS ==> #[trigger] self.pixels@[r]@[c] == if r
                        < row && on_border(r, c) {
                        border
                    } else {
                        old(self).pixels@[r]@[c]
                    },
        {
            for col in 0..COLUMNS
                invariant
                    self.wf(),
                    self.pos == old(self).pos,
                    self.border_pixel == border,
                    border == old(self).border(),
                    row < ROWS,
                    forall|r: int, c: int|
                        0 <= r < ROWS && 0 <= c < COLUMNS ==> #[trigger] self.pixels@[r]@[c] == if (r
                            < row || (r == row && c < col)) && on_border(r, c) {
                            border
                        } else {
                            old(self).pixels@[r]@[c]
                        },
            {
                if row == 0 || row == ROWS - 1 || col == 0 || col == COLUMNS - 1 {
                    self.pixels[row][col] = border;
                }
            }
        }
    }

    /// Shows the game-over picture: one scroll step over `image`.
    pub fn draw_game_over(&mut self, image: &Image)
        requires
            old(self).wf(),
            image.can_feed_panel(),
        ensures
            final(self).wf(),
            final(self).grid() == window(image.grid(), image.width as nat, old(self).cursor()),
            final(self).cursor() == next_cursor(old(self).cursor(), image.width as nat),
            final(self).border() == old(self).border(),
    {
        self.next_image_frame(image);
    }
}

} // verus!
