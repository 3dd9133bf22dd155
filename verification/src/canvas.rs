use vstd::prelude::*;

use crate::color::Color;
use crate::display::grid_view;
use crate::shapes::Drawable;

verus! {

/// One coordinate painted: the grid with the cell at column `p.0`, row
/// `p.1` set to the color (the first component walks the width).
pub open spec fn paint_one(g: Seq<Seq<Color>>, p: (usize, usize), c: Color) -> Seq<Seq<Color>> {
    g.update(p.1 as int, g[p.1 as int].update(p.0 as int, c))
}

/// The grid after painting the coordinates from index `k` on, in order.
pub open spec fn paint_from(
    g: Seq<Seq<Color>>,
    coords: Seq<(usize, usize)>,
    c: Color,
    k: int,
) -> Seq<Seq<Color>>
    decreases coords.len() - k,
{
    if k < 0 || k >= coords.len() {
        g
    } else {
        paint_from(paint_one(g, coords[k], c), coords, c, k + 1)
    }
}

/// The grid after painting every coordinate, in order.
pub open spec fn paint(g: Seq<Seq<Color>>, coords: Seq<(usize, usize)>, c: Color) -> Seq<Seq<
    Color,
>> {
    paint_from(g, coords, c, 0)
}

/// Every coordinate from `k` on names a cell inside the grid.
pub open spec fn coords_in_grid(g: Seq<Seq<Color>>, coords: Seq<(usize, usize)>, k: int) -> bool {
    forall|j: int|
        k <= j < coords.len() ==> (#[trigger] coords[j]).1 < g.len() && coords[j].0 < g[
            coords[j].1 as int].len()
}

/// One paint step keeps every in-range coordinate in range.
proof fn lemma_paint_one_dims(g: Seq<Seq<Color>>, p: (usize, usize), c: Color)
    requires
        p.1 < g.len(),
        p.0 < g[p.1 as int].len(),
    ensures
        paint_one(g, p, c).len() == g.len(),
        forall|i: int| 0 <= i < g.len() ==> #[trigger] paint_one(g, p, c)[i].len() == g[i].len(),
{
    let g2 = paint_one(g, p, c);
    assert forall|i: int| 0 <= i < g.len() implies #[trigger] g2[i].len() == g[i].len() by {
        if i == p.1 as int {
            assert(g2[i] == g[p.1 as int].update(p.0 as int, c));
        } else {
            assert(g2[i] == g[i]);
        }
    }
}

/// Painting within bounds never changes the grid's dimensions.
pub proof fn lemma_paint_from_dims(g: Seq<Seq<Color>>, coords: Seq<(usize, usize)>, c: Color, k: int)
    requires
        coords_in_grid(g, coords, k),
    ensures
        paint_from(g, coords, c, k).len() == g.len(),
        forall|i: int|
            0 <= i < g.len() ==> #[trigger] paint_from(g, coords, c, k)[i].len() == g[i].len(),
    decreases coords.len() - k,
{
    if 0 <= k < coords.len() {
        let p = coords[k];
        let g2 = paint_one(g, p, c);
        lemma_paint_one_dims(g, p, c);
        assert(coords_in_grid(g2, coords, k + 1));
        lemma_paint_from_dims(g2, coords, c, k + 1);
    }
}

/// A cell no remaining coordinate names keeps its color.
pub proof fn lemma_paint_from_preserves(
    g: Seq<Seq<Color>>,
    coords: Seq<(usize, usize)>,
    c: Color,
    k: int,
    col: int,
    row: int,
)
    requires
        0 <= col < g.len(),
        0 <= row < g[col].len(),
        coords_in_grid(g, coords, k),
        forall|j: int|
            k <= j < coords.len() ==> !((#[trigger] coords[j]).1 == col && coords[j].0 == row),
    ensures
        paint_from(g, coords, c, k)[col][row] == g[col][row],
    decreases coords.len() - k,
{
    if 0 <= k < coords.len() {
        let p = coords[k];
        let g2 = paint_one(g, p, c);
        lemma_paint_one_dims(g, p, c);
        assert(g2[col][row] == g[col][row]);
        assert(coords_in_grid(g2, coords, k + 1));
        lemma_paint_from_preserves(g2, coords, c, k + 1, col, row);
    }
}

/// A cell that some remaining coordinate names ends at the painted color.
pub proof fn lemma_paint_from_covers(
    g: Seq<Seq<Color>>,
    coords: Seq<(usize, usize)>,
    c: Color,
    k: int,
    t: int,
)
    requires
        0 <= k <= t < coords.len(),
        coords_in_grid(g, coords, k),
    ensures
        paint_from(g, coords, c, k)[coords[t].1 as int][coords[t].0 as int] == c,
    decreases coords.len() - k,
{
    let col = coords[t].1 as int;
    let row = coords[t].0 as int;
    let p = coords[k];
    let g2 = paint_one(g, p, c);
    lemma_paint_one_dims(g, p, c);
    assert(coords_in_grid(g2, coords, k + 1));
    if k == t {
        assert(g2[col][row] == c);
        if exists|j: int|
            k + 1 <= j < coords.len() && ((#[trigger] coords[j]).1 == coords[t].1 && coords[j].0
                == coords[t].0) {
            let j = choose|j: int|
                k + 1 <= j < coords.len() && ((#[trigger] coords[j]).1 == coords[t].1 && coords[
                    j].0 == coords[t].0);
            lemma_paint_from_covers(g2, coords, c, k + 1, j);
        } else {
            lemma_paint_from_preserves(g2, coords, c, k + 1, col, row);
        }
    } else {
        lemma_paint_from_covers(g2, coords, c, k + 1, t);
    }
}

/// Later draws win: after painting one set of coordinates and then another,
/// every cell the second set names holds the second color, whatever the
/// first paint did to it.
pub proof fn lemma_last_draw_wins(
    g: Seq<Seq<Color>>,
    coords1: Seq<(usize, usize)>,
    c1: Color,
    coords2: Seq<(usize, usize)>,
    c2: Color,
    t: int,
)
    requires
        0 <= t < coords2.len(),
        coords_in_grid(g, coords1, 0),
        coords_in_grid(g, coords2, 0),
    ensures
        paint(paint(g, coords1, c1), coords2, c2)[coords2[t].1 as int][coords2[t].0 as int] == c2,
{
    let g1 = paint(g, coords1, c1);
    lemma_paint_from_dims(g, coords1, c1, 0);
    assert(coords_in_grid(g1, coords2, 0));
    lemma_paint_from_covers(g1, coords2, c2, 0, t);
}

/// A fixed-size grid of color cells, row-major, with every row the same
/// length; the drawing surface the facade renders from.
#[derive(Debug)]
pub struct Canvas {
    width: usize,
    height: usize,
    pixels: Vec<Vec<Color>>,
}

impl Canvas {
    pub closed spec fn spec_width(&self) -> usize {
        self.width
    }

    pub closed spec fn spec_height(&self) -> usize {
        self.height
    }

    /// The grid as a mathematical value.
    pub closed spec fn grid(&self) -> Seq<Seq<Color>> {
        grid_view(self.pixels@)
    }

    /// Every row has length `width` and there are `height` of them.
    pub open spec fn wf(&self) -> bool {
        &&& self.grid().len() == self.spec_height()
        &&& forall|i: int|
            0 <= i < self.grid().len() ==> #[trigger] self.grid()[i].len() == self.spec_width()
    }

    /// A fresh canvas with every cell the background color.
    pub fn new(width: usize, height: usize) -> (r: Canvas)
        ensures
            r.wf(),
            r.spec_width() == width,
            r.spec_height() == height,
            forall|i: int, j: int|
                0 <= i < height && 0 <= j < width ==> #[trigger] r.grid()[i][j] == Color::White,
    {
        let mut pixels: Vec<Vec<Color>> = Vec::new();
        let mut i: usize = 0;
        while i < height
            invariant
                i <= height,
                pixels@.len() == i,
                forall|t: int|
                    0 <= t < i ==> #[trigger] pixels@[t]@.len() == width && forall|j: int|
                        0 <= j < width ==> pixels@[t]@[j] == Color::White,
            decreases height - i,
        {
            let mut row: Vec<Color> = Vec::new();
            let mut j: usize = 0;
            while j < width
                invariant
                    j <= width,
                    row@.len() == j,
                    forall|t: int| 0 <= t < j ==> #[trigger] row@[t] == Color::White,
                decreases width - j,
            {
                row.push(Color::White);
                j += 1;
            }
            pixels.push(row);
            i += 1;
        }
        let r = Canvas { width, height, pixels };
        proof {
            assert forall|i: int| 0 <= i < r.grid().len() implies #[trigger] r.grid()[i].len()
                == width by {
                assert(r.grid()[i] == r.pixels@[i]@);
            }
            assert forall|i: int, j: int| 0 <= i < height && 0 <= j < width implies #[trigger] r
                .grid()[i][j] == Color::White by {
                assert(r.grid()[i] == r.pixels@[i]@);
            }
        }
        r
    }

    /// The color of the cell at column `row`, row `col` of the grid (the
    /// first index walks the height).
    pub fn get_pixel(&self, col: usize, row: usize) -> (r: Color)
        requires
            self.wf(),
            col < self.spec_height(),
            row < self.spec_width(),
        ensures
            r == self.grid()[col as int][row as int],
    {
        let rowv = &self.pixels[col];
        proof {
            assert(rowv@ == self.grid()[col as int]);
        }
        rowv[row]
    }

    /// Set one cell: `row` walks the width, `col` the height.
    pub fn set_pixel(&mut self, row: usize, col: usize, color: &Color)
        requires
            old(self).wf(),
            row < old(self).spec_width(),
            col < old(self).spec_height(),
        ensures
            final(self).wf(),
            final(self).spec_width() == old(self).spec_width(),
            final(self).spec_height() == old(self).spec_height(),
            final(self).grid() == paint_one(old(self).grid(), (row, col), *color),
    {
        proof {
            assert(self.pixels@[col as int]@ == self.grid()[col as int]);
        }
        self.pixels[col][row] = *color;
        proof {
            assert(self.grid() =~~= paint_one(old(self).grid(), (row, col), *color));
        }
    }

    /// Paint every cell the shape covers, in the shape's order; cells
    /// painted twice keep the last write.
    pub fn draw<D: Drawable>(&mut self, drawable: D, color: &Color)
        requires
            old(self).wf(),
            drawable.wf(),
            forall|t: int|
                0 <= t < drawable.spec_coordinates().len() ==> (
                #[trigger] drawable.spec_coordinates()[t]).0 < old(self).spec_width() && (
                drawable.spec_coordinates()[t]).1 < old(self).spec_height(),
        ensures
            final(self).wf(),
            final(self).spec_width() == old(self).spec_width(),
            final(self).spec_height() == old(self).spec_height(),
            final(self).grid() == paint(old(self).grid(), drawable.spec_coordinates(), *color),
    {
        let coords = drawable.coordinates();
        let ghost target = paint(old(self).grid(), drawable.spec_coordinates(), *color);
        let mut k: usize = 0;
        while k < coords.len()
            invariant
                coords@ == drawable.spec_coordinates(),
                k <= coords@.len(),
                self.wf(),
                self.spec_width() == old(self).spec_width(),
                self.spec_height() == old(self).spec_height(),
                forall|t: int|
                    0 <= t < coords@.len() ==> (#[trigger] coords@[t]).0 < self.spec_width() && (
                    coords@[t]).1 < self.spec_height(),
                target == paint_from(self.grid(), coords@, *color, k as int),
            decreases coords@.len() - k,
        {
            let (row, col) = coords[k];
            self.set_pixel(row, col, color);
            k += 1;
        }
    }

    /// The height of the canvas.
    pub fn height(&self) -> (r: usize)
        ensures
            r == self.spec_height(),
    {
        self.height
    }

    /// The width of the canvas.
    pub fn width(&self) -> (r: usize)
        ensures
            r == self.spec_width(),
    {
        self.width
    }

    /// The rows of the canvas, for conversion to a packed buffer.
    pub fn pixels(&self) -> (r: &Vec<Vec<Color>>)
        ensures
            grid_view(r@) == self.grid(),
    {
        &self.pixels
    }
}

} // verus!
