//! A decoded source image, possibly wider than the panel.
use vstd::prelude::*;
use crate::panel::{COLUMNS, ROWS};
use crate::pixel::Pixel;

verus! {

/// A grid of pixels, `height` rows of `width` pixels.
pub struct Image {
    pub width: u32,
    pub height: u32,
    pub pixels: Vec<Vec<Pixel>>,
}

/// A grid of `rows` rows of `cols` copies of `p`.
pub open spec fn uniform_grid(rows: nat, cols: nat, p: Pixel) -> Seq<Seq<Pixel>> {
    Seq::new(rows, |r: int| Seq::new(cols, |c: int| p))
}

impl Image {
    /// The pixels, row by row.
    pub open spec fn grid(&self) -> Seq<Seq<Pixel>> {
        self.pixels@.map_values(|row: Vec<Pixel>| row@)
    }

    /// The grid holds `height` rows of `width` pixels.
    pub open spec fn wf(&self) -> bool {
        &&& self.pixels@.len() == self.height
        &&& forall|r: int| 0 <= r < self.height ==> #[trigger] self.pixels@[r]@.len() == self.width
    }

    /// The image can feed the panel: it is at least as tall as the panel
    /// and at least one pixel wide.
    pub open spec fn can_feed_panel(&self) -> bool {
        &&& self.wf()
        &&& self.width > 0
        &&& self.height >= ROWS
    }

    /// A black image of the panel's size.
    pub fn new() -> (img: Image)
        ensures
            img.wf(),
            img.width == COLUMNS,
            img.height == ROWS,
            img.grid() == uniform_grid(ROWS as nat, COLUMNS as nat, Pixel { r: 0, g: 0, b: 0 }),
    {
        let pixels = black_grid(ROWS, COLUMNS);
        Image { width: COLUMNS as u32, height: ROWS as u32, pixels }
    }
}

/// A grid of `rows` rows of `cols` black pixels.
pub fn black_grid(rows: usize, cols: usize) -> (g: Vec<Vec<Pixel>>)
    ensures
        g@.map_values(|row: Vec<Pixel>| row@) == uniform_grid(
            rows as nat,
            cols as nat,
            Pixel { r: 0, g: 0, b: 0 },
        ),
        g@.len() == rows,
        forall|r: int| 0 <= r < rows ==> #[trigger] g@[r]@.len() == cols,
{
    let black = Pixel::new();
    let mut g: Vec<Vec<Pixel>> = Vec::new();
    while g.len() < rows
        invariant
            g@.len() <= rows,
            black == (Pixel { r: 0, g: 0, b: 0 }),
            forall|r: int|
                0 <= r < g@.len() ==> #[trigger] g@[r]@ == Seq::new(cols as nat, |c: int| black),
        decreases rows - g@.len(),
    {
        let mut row: Vec<Pixel> = Vec::new();
        while row.len() < cols
            invariant
                row@.len() <= cols,
                forall|c: int| 0 <= c < row@.len() ==> #[trigger] row@[c] == black,
            decreases cols - row@.len(),
        {
            row.push(black);
        }
        assert(row@ =~= Seq::new(cols as nat, |c: int| black));
        g.push(row);
    }
    assert(g@.map_values(|row: Vec<Pixel>| row@) =~= uniform_grid(rows as nat, cols as nat, black));
    g
}

} // verus!
