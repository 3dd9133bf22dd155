use vstd::prelude::*;

verus! {

/// A shape that can name the grid cells it covers, in drawing order.
pub trait Drawable {
    /// The cells the shape covers.
    spec fn spec_coordinates(&self) -> Seq<(usize, usize)>;

    /// The geometric side conditions the shape's rasterizer needs.
    spec fn wf(&self) -> bool;

    /// Produce the cells, in order.
    fn coordinates(&self) -> (r: Vec<(usize, usize)>)
        requires
            self.wf(),
        ensures
            r@ == self.spec_coordinates(),
    ;
}

pub open spec fn abs_val(a: int) -> int {
    if a < 0 {
        -a
    } else {
        a
    }
}

pub open spec fn step_toward(a: int, b: int) -> int {
    if a < b {
        1int
    } else {
        -1int
    }
}

/// The walk state is consistent: the horizontal budget is non-negative, the
/// vertical budget non-positive, and each step direction points from the
/// current cell toward the endpoint.
pub open spec fn bres_valid(
    x0: int,
    y0: int,
    x1: int,
    y1: int,
    sx: int,
    sy: int,
    dx: int,
    dy: int,
) -> bool {
    &&& dx >= 0
    &&& dy <= 0
    &&& (x0 == x1 || (sx == 1 && x0 < x1) || (sx == -1 && x0 > x1))
    &&& (y0 == y1 || (sy == 1 && y0 < y1) || (sy == -1 && y0 > y1))
}

/// The cells an integer incremental (error-accumulating) line walk visits
/// from `(x0, y0)` until it reaches `(x1, y1)`, both ends included.
pub open spec fn bres_walk(
    x0: int,
    y0: int,
    x1: int,
    y1: int,
    sx: int,
    sy: int,
    dx: int,
    dy: int,
    err: int,
) -> Seq<(int, int)>
    decreases abs_val(x1 - x0) + abs_val(y1 - y0),
        when bres_valid(x0, y0, x1, y1, sx, sy, dx, dy)
{
    let e2 = 2 * err;
    if e2 >= dy && x0 == x1 {
        seq![(x0, y0)]
    } else {
        let xm = e2 >= dy;
        let nx = if xm {
            x0 + sx
        } else {
            x0
        };
        let ne = if xm {
            err + dy
        } else {
            err
        };
        if e2 <= dx && y0 == y1 {
            seq![(x0, y0)]
        } else {
            let ym = e2 <= dx;
            let ny = if ym {
                y0 + sy
            } else {
                y0
            };
            let ne2 = if ym {
                ne + dx
            } else {
                ne
            };
            seq![(x0, y0)] + bres_walk(nx, ny, x1, y1, sx, sy, dx, dy, ne2)
        }
    }
}

/// The cells of the line from `start` to `end`, in walking order.
pub open spec fn line_points(start: (isize, isize), end: (isize, isize)) -> Seq<(int, int)> {
    let x0 = start.0 as int;
    let y0 = start.1 as int;
    let x1 = end.0 as int;
    let y1 = end.1 as int;
    let dx = abs_val(x1 - x0);
    let dy = -abs_val(y1 - y0);
    bres_walk(x0, y0, x1, y1, step_toward(x0, x1), step_toward(y0, y1), dx, dy, dx + dy)
}

/// The cell lies in the inclusive bounding box of the two corners.
pub open spec fn in_box(p: (int, int), x0: int, y0: int, x1: int, y1: int) -> bool {
    &&& (if x0 <= x1 {
        x0 <= p.0 <= x1
    } else {
        x1 <= p.0 <= x0
    })
    &&& (if y0 <= y1 {
        y0 <= p.1 <= y1
    } else {
        y1 <= p.1 <= y0
    })
}

/// Every cell of the walk lies in the bounding box of its start and end.
pub proof fn lemma_bres_box(
    x0: int,
    y0: int,
    x1: int,
    y1: int,
    sx: int,
    sy: int,
    dx: int,
    dy: int,
    err: int,
)
    requires
        bres_valid(x0, y0, x1, y1, sx, sy, dx, dy),
    ensures
        forall|t: int|
            0 <= t < bres_walk(x0, y0, x1, y1, sx, sy, dx, dy, err).len() ==> in_box(
                #[trigger] bres_walk(x0, y0, x1, y1, sx, sy, dx, dy, err)[t],
                x0,
                y0,
                x1,
                y1,
            ),
    decreases abs_val(x1 - x0) + abs_val(y1 - y0),
{
    let whole = bres_walk(x0, y0, x1, y1, sx, sy, dx, dy, err);
    let e2 = 2 * err;
    if e2 >= dy && x0 == x1 {
    } else {
        let xm = e2 >= dy;
        let nx = if xm {
            x0 + sx
        } else {
            x0
        };
        let ne = if xm {
            err + dy
        } else {
            err
        };
        if e2 <= dx && y0 == y1 {
        } else {
            let ym = e2 <= dx;
            let ny = if ym {
                y0 + sy
            } else {
                y0
            };
            let ne2 = if ym {
                ne + dx
            } else {
                ne
            };
            lemma_bres_box(nx, ny, x1, y1, sx, sy, dx, dy, ne2);
            let sub = bres_walk(nx, ny, x1, y1, sx, sy, dx, dy, ne2);
            assert(whole == seq![(x0, y0)] + sub);
            assert forall|t: int| 0 <= t < whole.len() implies in_box(
                #[trigger] whole[t],
                x0,
                y0,
                x1,
                y1,
            ) by {
                if t > 0 {
                    assert(whole[t] == sub[t - 1]);
                    assert(in_box(sub[t - 1], nx, ny, x1, y1));
                }
            }
        }
    }
}

/// Integer pairs as mathematical pairs.
pub open spec fn points_view(s: Seq<(usize, usize)>) -> Seq<(int, int)> {
    s.map_values(|p: (usize, usize)| (p.0 as int, p.1 as int))
}

/// The line's cells as grid coordinates.
pub open spec fn line_cells(start: (isize, isize), end: (isize, isize)) -> Seq<(usize, usize)> {
    line_points(start, end).map_values(|p: (int, int)| (p.0 as usize, p.1 as usize))
}

/// Endpoint components stay below this bound so that the walk's error
/// accumulator cannot overflow a machine integer.
pub const LINE_COORD_MAX: isize = 0x1000_0000;

/// Every cell of a line between non-negative endpoints lies in the
/// endpoints' bounding box: enough to show the line fits on any canvas
/// that holds both of its ends.
pub proof fn lemma_line_cells_in_box(start: (isize, isize), end: (isize, isize))
    requires
        0 <= start.0,
        0 <= start.1,
        0 <= end.0,
        0 <= end.1,
    ensures
        forall|t: int|
            0 <= t < line_cells(start, end).len() ==> {
                let p = #[trigger] line_cells(start, end)[t];
                &&& p.0 as int <= (if start.0 <= end.0 {
                    end.0
                } else {
                    start.0
                })
                &&& p.1 as int <= (if start.1 <= end.1 {
                    end.1
                } else {
                    start.1
                })
            },
{
    let x0 = start.0 as int;
    let y0 = start.1 as int;
    let x1 = end.0 as int;
    let y1 = end.1 as int;
    let sx = step_toward(x0, x1);
    let sy = step_toward(y0, y1);
    let dx = abs_val(x1 - x0);
    let dy = -abs_val(y1 - y0);
    lemma_bres_box(x0, y0, x1, y1, sx, sy, dx, dy, dx + dy);
    assert forall|t: int| 0 <= t < line_cells(start, end).len() implies {
        let p = #[trigger] line_cells(start, end)[t];
        &&& p.0 as int <= (if start.0 <= end.0 {
            end.0
        } else {
            start.0
        })
        &&& p.1 as int <= (if start.1 <= end.1 {
            end.1
        } else {
            start.1
        })
    } by {
        let q = line_points(start, end)[t];
        assert(in_box(q, x0, y0, x1, y1));
        assert(line_cells(start, end)[t] == ((q.0 as usize), (q.1 as usize)));
    }
}

/// A straight line between two grid cells.
pub struct Line {
    start: (isize, isize),
    end: (isize, isize),
}

impl Line {
    pub closed spec fn spec_start(&self) -> (isize, isize) {
        self.start
    }

    pub closed spec fn spec_end(&self) -> (isize, isize) {
        self.end
    }

    pub fn new(start: (isize, isize), end: (isize, isize)) -> (r: Self)
        ensures
            r.spec_start() == start,
            r.spec_end() == end,
    {
        Self { start, end }
    }

    /// The cells along the line, by an integer incremental walk that is
    /// sign-aware and so handles every octant; both endpoints included.
    pub fn line_coordinates(&self) -> (r: Vec<(usize, usize)>)
        requires
            self.wf(),
        ensures
            r@ == line_cells(self.spec_start(), self.spec_end()),
    {
        let ghost gs = self.spec_start();
        let ghost ge = self.spec_end();
        let mut result: Vec<(usize, usize)> = Vec::new();
        let (s0, s1) = self.start;
        let mut x0 = s0;
        let mut y0 = s1;
        let (x1, y1) = self.end;
        let dx = if x1 >= x0 {
            x1 - x0
        } else {
            x0 - x1
        };
        let dy = if y1 >= y0 {
            -(y1 - y0)
        } else {
            -(y0 - y1)
        };
        let sx: isize = if x0 < x1 {
            1
        } else {
            -1
        };
        let sy: isize = if y0 < y1 {
            1
        } else {
            -1
        };
        let mut err = dx + dy;
        proof {
            assert(dx as int == abs_val(x1 as int - gs.0 as int));
            assert(dy as int == -abs_val(y1 as int - gs.1 as int));
        }
        loop
            invariant_except_break
                0 <= gs.0 < LINE_COORD_MAX,
                0 <= gs.1 < LINE_COORD_MAX,
                0 <= x1 < LINE_COORD_MAX,
                0 <= y1 < LINE_COORD_MAX,
                ge == (x1, y1),
                dx as int == abs_val(x1 as int - gs.0 as int),
                dy as int == -abs_val(y1 as int - gs.1 as int),
                sx as int == step_toward(gs.0 as int, x1 as int),
                sy as int == step_toward(gs.1 as int, y1 as int),
                bres_valid(
                    x0 as int,
                    y0 as int,
                    x1 as int,
                    y1 as int,
                    sx as int,
                    sy as int,
                    dx as int,
                    dy as int,
                ),
                (if gs.0 <= x1 {
                    gs.0 <= x0 <= x1
                } else {
                    x1 <= x0 <= gs.0
                }),
                (if gs.1 <= y1 {
                    gs.1 <= y0 <= y1
                } else {
                    y1 <= y0 <= gs.1
                }),
                2 * (dy as int) <= err as int <= 2 * (dx as int),
                line_points(gs, ge) =~= points_view(result@) + bres_walk(
                    x0 as int,
                    y0 as int,
                    x1 as int,
                    y1 as int,
                    sx as int,
                    sy as int,
                    dx as int,
                    dy as int,
                    err as int,
                ),
            ensures
                line_points(gs, ge) =~= points_view(result@),
            decreases abs_val(x1 as int - x0 as int) + abs_val(y1 as int - y0 as int),
        {
            let ghost hx = x0 as int;
            let ghost hy = y0 as int;
            let ghost herr = err as int;
            result.push((x0 as usize, y0 as usize));
            let e2 = 2 * err;
            if e2 >= dy {
                if x0 == x1 {
                    proof {
                        assert(bres_walk(
                            hx,
                            hy,
                            x1 as int,
                            y1 as int,
                            sx as int,
                            sy as int,
                            dx as int,
                            dy as int,
                            herr,
                        ) =~= seq![(hx, hy)]);
                    }
                    break ;
                }
                err = err + dy;
                x0 = x0 + sx;
            }
            if e2 <= dx {
                if y0 == y1 {
                    proof {
                        assert(bres_walk(
                            hx,
                            hy,
                            x1 as int,
                            y1 as int,
                            sx as int,
                            sy as int,
                            dx as int,
                            dy as int,
                            herr,
                        ) =~= seq![(hx, hy)]);
                    }
                    break ;
                }
                err = err + dx;
                y0 = y0 + sy;
            }
            proof {
                assert(bres_walk(
                    hx,
                    hy,
                    x1 as int,
                    y1 as int,
                    sx as int,
                    sy as int,
                    dx as int,
                    dy as int,
                    herr,
                ) =~= seq![(hx, hy)] + bres_walk(
                    x0 as int,
                    y0 as int,
                    x1 as int,
                    y1 as int,
                    sx as int,
                    sy as int,
                    dx as int,
                    dy as int,
                    err as int,
                ));
            }
        }
        proof {
            assert forall|t: int| 0 <= t < result@.len() implies result@[t] == line_cells(gs, ge)[t]
            by {
                assert(points_view(result@)[t] == line_points(gs, ge)[t]);
            }
            assert(result@ =~= line_cells(gs, ge));
        }
        result
    }
}

impl Drawable for Line {
    open spec fn spec_coordinates(&self) -> Seq<(usize, usize)> {
        line_cells(self.spec_start(), self.spec_end())
    }

    open spec fn wf(&self) -> bool {
        &&& 0 <= self.spec_start().0 < LINE_COORD_MAX
        &&& 0 <= self.spec_start().1 < LINE_COORD_MAX
        &&& 0 <= self.spec_end().0 < LINE_COORD_MAX
        &&& 0 <= self.spec_end().1 < LINE_COORD_MAX
    }

    fn coordinates(&self) -> (r: Vec<(usize, usize)>) {
        self.line_coordinates()
    }
}

/// One row of a rectangle's cells: `(row, c0) ..= (row, c1)`.
pub open spec fn rect_row_cells(row: int, c0: int, c1: int) -> Seq<(usize, usize)> {
    Seq::new(
        if c0 <= c1 {
            (c1 - c0 + 1) as nat
        } else {
            0
        },
        |k: int| ((row as usize), ((c0 + k) as usize)),
    )
}

/// The cells of the inclusive box `(r0, c0) ..= (r1, c1)`, row by row.
pub open spec fn rect_cells_from(r0: int, r1: int, c0: int, c1: int) -> Seq<(usize, usize)>
    decreases (if r0 <= r1 {
        r1 - r0 + 1
    } else {
        0
    }),
{
    if r0 > r1 {
        Seq::empty()
    } else {
        rect_row_cells(r0, c0, c1) + rect_cells_from(r0 + 1, r1, c0, c1)
    }
}

/// Every cell of the inclusive box lies between its corners.
pub proof fn lemma_rect_cells_in_box(r0: int, r1: int, c0: int, c1: int)
    requires
        0 <= r0,
        0 <= c0,
        r1 <= usize::MAX,
        c1 <= usize::MAX,
    ensures
        forall|t: int|
            0 <= t < rect_cells_from(r0, r1, c0, c1).len() ==> {
                let p = #[trigger] rect_cells_from(r0, r1, c0, c1)[t];
                r0 <= p.0 as int <= r1 && c0 <= p.1 as int <= c1
            },
    decreases (if r0 <= r1 {
        r1 - r0 + 1
    } else {
        0
    }),
{
    if r0 <= r1 {
        lemma_rect_cells_in_box(r0 + 1, r1, c0, c1);
        let head = rect_row_cells(r0, c0, c1);
        let tail = rect_cells_from(r0 + 1, r1, c0, c1);
        let whole = rect_cells_from(r0, r1, c0, c1);
        assert(whole == head + tail);
        assert forall|t: int| 0 <= t < whole.len() implies {
            let p = #[trigger] whole[t];
            r0 <= p.0 as int <= r1 && c0 <= p.1 as int <= c1
        } by {
            if t < head.len() {
                assert(whole[t] == head[t]);
                assert(head[t] == ((r0 as usize), ((c0 + t) as usize)));
            } else {
                assert(whole[t] == tail[t - head.len()]);
            }
        }
    }
}

/// The axis-aligned inclusive box between two corner cells.
pub struct Rectangle {
    top_left: (usize, usize),
    bottom_right: (usize, usize),
}

impl Rectangle {
    pub closed spec fn spec_top_left(&self) -> (usize, usize) {
        self.top_left
    }

    pub closed spec fn spec_bottom_right(&self) -> (usize, usize) {
        self.bottom_right
    }

    pub fn new(top_left: (usize, usize), bottom_right: (usize, usize)) -> (r: Self)
        ensures
            r.spec_top_left() == top_left,
            r.spec_bottom_right() == bottom_right,
    {
        Self { top_left, bottom_right }
    }

    /// Every cell inside the inclusive bounding box, row by row.
    pub fn rectangle_coordinates(&self) -> (r: Vec<(usize, usize)>)
        requires
            self.wf(),
        ensures
            r@ == rect_cells_from(
                self.spec_top_left().0 as int,
                self.spec_bottom_right().0 as int,
                self.spec_top_left().1 as int,
                self.spec_bottom_right().1 as int,
            ),
    {
        let r0 = self.top_left.0;
        let c0 = self.top_left.1;
        let r1 = self.bottom_right.0;
        let c1 = self.bottom_right.1;
        let mut result: Vec<(usize, usize)> = Vec::new();
        let mut row = r0;
        while row <= r1
            invariant
                r1 < usize::MAX,
                c1 < usize::MAX,
                r0 <= row,
                row <= r1 + 1 || row == r0,
                rect_cells_from(r0 as int, r1 as int, c0 as int, c1 as int) =~= result@
                    + rect_cells_from(row as int, r1 as int, c0 as int, c1 as int),
            decreases r1 + 1 - row,
        {
            let ghost row_start = result@;
            let mut col = c0;
            while col <= c1
                invariant
                    c1 < usize::MAX,
                    c0 <= col,
                    col <= c1 + 1 || col == c0,
                    result@ =~= row_start + rect_row_cells(row as int, c0 as int, c1 as int)
                        .take(col as int - c0 as int),
                decreases c1 + 1 - col,
            {
                proof {
                    let k = col as int - c0 as int;
                    assert(rect_row_cells(row as int, c0 as int, c1 as int)[k] == (
                        (row as usize),
                        (col as usize),
                    ));
                    assert(rect_row_cells(row as int, c0 as int, c1 as int).take(k + 1)
                        =~= rect_row_cells(row as int, c0 as int, c1 as int).take(k).push(
                        ((row as usize), (col as usize)),
                    ));
                }
                result.push((row, col));
                col = col + 1;
            }
            proof {
                if c0 <= c1 {
                    assert(rect_row_cells(row as int, c0 as int, c1 as int).take(
                        col as int - c0 as int,
                    ) =~= rect_row_cells(row as int, c0 as int, c1 as int));
                } else {
                    assert(rect_row_cells(row as int, c0 as int, c1 as int).take(0)
                        =~= rect_row_cells(row as int, c0 as int, c1 as int));
                }
                assert(rect_cells_from(row as int, r1 as int, c0 as int, c1 as int)
                    == rect_row_cells(row as int, c0 as int, c1 as int) + rect_cells_from(
                    row as int + 1,
                    r1 as int,
                    c0 as int,
                    c1 as int,
                ));
            }
            row = row + 1;
        }
        proof {
            assert(rect_cells_from(row as int, r1 as int, c0 as int, c1 as int)
                =~= Seq::<(usize, usize)>::empty());
            assert(result@ =~= rect_cells_from(r0 as int, r1 as int, c0 as int, c1 as int));
        }
        result
    }
}

impl Drawable for Rectangle {
    open spec fn spec_coordinates(&self) -> Seq<(usize, usize)> {
        rect_cells_from(
            self.spec_top_left().0 as int,
            self.spec_bottom_right().0 as int,
            self.spec_top_left().1 as int,
            self.spec_bottom_right().1 as int,
        )
    }

    open spec fn wf(&self) -> bool {
        &&& self.spec_bottom_right().0 < usize::MAX
        &&& self.spec_bottom_right().1 < usize::MAX
    }

    fn coordinates(&self) -> (r: Vec<(usize, usize)>) {
        self.rectangle_coordinates()
    }
}

} // verus!
