//! The off-screen monochrome surface scenes render into: a fixed 32x16 grid
//! of boolean cells, row-major, with point and rectangle drawing and a
//! readback ("derasterize") of every lit cell.

use vstd::prelude::*;
use crate::geom::{Rect, Vec2};

verus! {

/// Width of the pixel grid in cells.
pub const GRID_WIDTH: usize = 32;

/// Height of the pixel grid in cells.
pub const GRID_HEIGHT: usize = 16;

/// Number of cells of the grid.
pub const GRID_CELLS: usize = 512;

/// `(x, y)` lies on the grid.
pub open spec fn on_grid(x: int, y: int) -> bool {
    0 <= x < GRID_WIDTH && 0 <= y < GRID_HEIGHT
}

/// Row-major cell index of `(x, y)`.
pub open spec fn cell_index(x: int, y: int) -> int {
    y * GRID_WIDTH + x
}

/// Row-major scan position of a pixel coordinate.
pub open spec fn scan_index(v: Vec2) -> int {
    v.y * GRID_WIDTH + v.x
}

/// `(x, y)` lies inside the rectangle.
pub open spec fn in_rect(r: Rect, x: int, y: int) -> bool {
    r.x <= x < r.x + r.w && r.y <= y < r.y + r.h
}

/// The pixel coordinate of a row-major scan position.
pub open spec fn scan_coord(pos: int) -> Vec2 {
    Vec2 { x: (pos % GRID_WIDTH as int) as i32, y: (pos / GRID_WIDTH as int) as i32 }
}

/// The lit cells among the first `n` scan positions, as pixel coordinates in
/// scan order.
pub open spec fn deraster_upto(bm: Seq<bool>, n: int) -> Seq<Vec2>
    decreases n,
{
    if n <= 0 {
        Seq::empty()
    } else if bm[n - 1] {
        deraster_upto(bm, n - 1).push(scan_coord(n - 1))
    } else {
        deraster_upto(bm, n - 1)
    }
}

/// All lit cells of a full surface, as pixel coordinates in row-major scan
/// order.
pub open spec fn deraster(bm: Seq<bool>) -> Seq<Vec2> {
    deraster_upto(bm, GRID_CELLS as int)
}

/// A 32x16 monochrome pixel surface. The view is the row-major sequence of
/// its cells; a `true` cell is lit.
pub struct Bitmap {
    cells: Vec<bool>,
}

impl View for Bitmap {
    type V = Seq<bool>;

    closed spec fn view(&self) -> Seq<bool> {
        self.cells@
    }
}

impl Bitmap {
    /// The surface holds exactly one cell per grid position.
    pub open spec fn wf(&self) -> bool {
        self@.len() == GRID_CELLS
    }

    /// A fresh surface with every cell unlit.
    pub fn new() -> (r: Bitmap)
        ensures
            r.wf(),
            forall|i: int| 0 <= i < GRID_CELLS ==> !r@[i],
    {
        let mut cells: Vec<bool> = Vec::new();
        let mut i: usize = 0;
        while i < GRID_CELLS
            invariant
                cells@.len() == i,
                i <= GRID_CELLS,
                forall|k: int| 0 <= k < i ==> !cells@[k],
            decreases GRID_CELLS - i,
        {
            cells.push(false);
            i = i + 1;
        }
        Bitmap { cells }
    }

    /// Switch every cell off.
    pub fn clear(&mut self)
        requires
            old(self).wf(),
        ensures
            final(self).wf(),
            forall|i: int| 0 <= i < GRID_CELLS ==> !final(self)@[i],
    {
        let mut i: usize = 0;
        while i < GRID_CELLS
            invariant
                self.wf(),
                i <= GRID_CELLS,
                forall|k: int| 0 <= k < i ==> !self@[k],
            decreases GRID_CELLS - i,
        {
            self.cells.set(i, false);
            i = i + 1;
        }
    }

    /// Whether the cell at `(x, y)` is lit.
    pub fn get(&self, x: usize, y: usize) -> (r: bool)
        requires
            self.wf(),
            on_grid(x as int, y as int),
        ensures
            r == self@[cell_index(x as int, y as int)],
    {
        self.cells[y * GRID_WIDTH + x]
    }

    /// Light the cell at `(x, y)`.
    pub fn draw_point(&mut self, x: usize, y: usize)
        requires
            old(self).wf(),
            on_grid(x as int, y as int),
        ensures
            final(self).wf(),
            final(self)@ == old(self)@.update(cell_index(x as int, y as int), true),
    {
        self.cells.set(y * GRID_WIDTH + x, true);
    }

    /// Light every grid cell a point of `points` names; points off the grid
    /// are ignored.
    pub fn draw_points(&mut self, points: &Vec<Vec2>)
        requires
            old(self).wf(),
        ensures
            final(self).wf(),
            forall|x: int, y: int| on_grid(x, y)
                ==> final(self)@[#[trigger] cell_index(x, y)]
                    == (old(self)@[cell_index(x, y)]
                        || exists|k: int| 0 <= k < points@.len()
                            && points@[k] == (Vec2 { x: x as i32, y: y as i32 })),
    {
        let mut i: usize = 0;
        while i < points.len()
            invariant
                self.wf(),
                i <= points.len(),
                forall|x: int, y: int| on_grid(x, y)
                    ==> self@[#[trigger] cell_index(x, y)]
                        == (old(self)@[cell_index(x, y)]
                            || exists|k: int| 0 <= k < i
                                && points@[k] == (Vec2 { x: x as i32, y: y as i32 })),
            decreases points.len() - i,
        {
            let p = points[i];
            if 0 <= p.x && p.x < GRID_WIDTH as i32 && 0 <= p.y && p.y < GRID_HEIGHT as i32 {
                let px = p.x as usize;
                let py = p.y as usize;
                self.cells.set(py * GRID_WIDTH + px, true);
                proof {
                    assert(p == (Vec2 { x: px as i32, y: py as i32 }));
                }
            }
            proof {
                assert forall|x: int, y: int| on_grid(x, y)
                    implies self@[#[trigger] cell_index(x, y)]
                        == (old(self)@[cell_index(x, y)]
                            || exists|k: int| 0 <= k < i + 1
                                && points@[k] == (Vec2 { x: x as i32, y: y as i32 })) by {
                    let pt = Vec2 { x: x as i32, y: y as i32 };
                    if self@[cell_index(x, y)] {
                        if !old(self)@[cell_index(x, y)] {
                            if !(exists|k: int| 0 <= k < i
                                && points@[k] == (Vec2 { x: x as i32, y: y as i32 }))  {
                                assert(points@[i as int] == pt);
                            }
                        }
                    } else {
                        assert forall|k: int| 0 <= k < i + 1
                            implies points@[k] != pt by {
                            if k == i {
                                if points@[k] == pt {
                                    assert(self@[cell_index(x, y)]);
                                }
                            }
                        }
                    }
                }
            }
            i = i + 1;
        }
    }

    /// Light every cell of an axis-aligned rectangle that must lie on the
    /// grid.
    pub fn fill_rect(&mut self, r: Rect)
        requires
            old(self).wf(),
            0 <= r.x,
            0 <= r.y,
            r.x + r.w <= GRID_WIDTH,
            r.y + r.h <= GRID_HEIGHT,
        ensures
            final(self).wf(),
            forall|x: int, y: int| on_grid(x, y)
                ==> final(self)@[#[trigger] cell_index(x, y)]
                    == (old(self)@[cell_index(x, y)] || in_rect(r, x, y)),
    {
        let x0 = r.x as usize;
        let y0 = r.y as usize;
        let mut dy: usize = 0;
        while dy < r.h as usize
            invariant
                self.wf(),
                0 <= r.x,
                0 <= r.y,
                r.x + r.w <= GRID_WIDTH,
                r.y + r.h <= GRID_HEIGHT,
                x0 == r.x as int,
                y0 == r.y as int,
                dy <= r.h,
                forall|x: int, y: int| on_grid(x, y)
                    ==> self@[#[trigger] cell_index(x, y)]
                        == (old(self)@[cell_index(x, y)]
                            || (in_rect(r, x, y) && y < y0 + dy)),
            decreases r.h - dy,
        {
            let mut dx: usize = 0;
            while dx < r.w as usize
                invariant
                    self.wf(),
                    0 <= r.x,
                    0 <= r.y,
                    r.x + r.w <= GRID_WIDTH,
                    r.y + r.h <= GRID_HEIGHT,
                    x0 == r.x as int,
                    y0 == r.y as int,
                    dy < r.h,
                    dx <= r.w,
                    forall|x: int, y: int| on_grid(x, y)
                        ==> self@[#[trigger] cell_index(x, y)]
                            == (old(self)@[cell_index(x, y)]
                                || (in_rect(r, x, y)
                                    && (y < y0 + dy || (y == y0 + dy && x < x0 + dx)))),
                decreases r.w - dx,
            {
                self.cells.set((y0 + dy) * GRID_WIDTH + (x0 + dx), true);
                dx = dx + 1;
            }
            dy = dy + 1;
        }
    }

    /// Make this surface an exact copy of `other`.
    pub fn copy_from(&mut self, other: &Bitmap)
        requires
            old(self).wf(),
            other.wf(),
        ensures
            final(self).wf(),
            final(self)@ == other@,
    {
        let mut i: usize = 0;
        while i < GRID_CELLS
            invariant
                self.wf(),
                other.wf(),
                i <= GRID_CELLS,
                forall|k: int| 0 <= k < i ==> self@[k] == other@[k],
            decreases GRID_CELLS - i,
        {
            self.cells.set(i, other.cells[i]);
            i = i + 1;
        }
        proof {
            assert(self@ =~= other@);
        }
    }

    /// Read back every lit cell as a pixel coordinate in row-major scan
    /// order.
    pub fn derasterize_pixels(&self) -> (r: Vec<Vec2>)
        requires
            self.wf(),
        ensures
            r@ == deraster(self@),
    {
        let mut result: Vec<Vec2> = Vec::new();
        let mut y: usize = 0;
        while y < GRID_HEIGHT
            invariant
                self.wf(),
                y <= GRID_HEIGHT,
                result@ == deraster_upto(self@, y * GRID_WIDTH as int),
            decreases GRID_HEIGHT - y,
        {
            let mut x: usize = 0;
            while x < GRID_WIDTH
                invariant
                    self.wf(),
                    y < GRID_HEIGHT,
                    x <= GRID_WIDTH,
                    result@ == deraster_upto(self@, y * GRID_WIDTH as int + x),
                decreases GRID_WIDTH - x,
            {
                let pos = y * GRID_WIDTH + x;
                if self.cells[pos] {
                    result.push(Vec2 { x: x as i32, y: y as i32 });
                    proof {
                        assert(scan_coord(pos as int) == (Vec2 { x: x as i32, y: y as i32 }));
                    }
                }
                x = x + 1;
            }
            y = y + 1;
        }
        result
    }
}

/// Every point of a derasterization up to `n` is a lit on-grid cell below
/// `n`, the scan positions strictly increase along the list, and every lit
/// cell below `n` appears in it.
pub proof fn lemma_deraster_upto_props(bm: Seq<bool>, n: int)
    requires
        bm.len() == GRID_CELLS,
        0 <= n <= GRID_CELLS,
    ensures
        forall|k: int| 0 <= k < deraster_upto(bm, n).len()
            ==> on_grid((#[trigger] deraster_upto(bm, n)[k]).x as int,
                    deraster_upto(bm, n)[k].y as int)
                && scan_index(deraster_upto(bm, n)[k]) < n
                && bm[scan_index(deraster_upto(bm, n)[k])],
        forall|k1: int, k2: int| 0 <= k1 < k2 < deraster_upto(bm, n).len()
            ==> scan_index(#[trigger] deraster_upto(bm, n)[k1])
                < scan_index(#[trigger] deraster_upto(bm, n)[k2]),
        forall|p: int| 0 <= p < n && bm[p]
            ==> exists|k: int| 0 <= k < deraster_upto(bm, n).len()
                && #[trigger] deraster_upto(bm, n)[k] == scan_coord(p),
    decreases n,
{
    if n > 0 {
        lemma_deraster_upto_props(bm, n - 1);
        let prev = deraster_upto(bm, n - 1);
        let cur = deraster_upto(bm, n);
        if bm[n - 1] {
            assert(scan_index(scan_coord(n - 1)) == n - 1);
            assert(on_grid(scan_coord(n - 1).x as int, scan_coord(n - 1).y as int));
            assert forall|p: int| 0 <= p < n && bm[p]
                implies exists|k: int| 0 <= k < cur.len()
                    && #[trigger] cur[k] == scan_coord(p) by {
                if p == n - 1 {
                    assert(cur[cur.len() - 1] == scan_coord(p));
                } else {
                    let k0 = choose|k: int| 0 <= k < prev.len()
                        && #[trigger] prev[k] == scan_coord(p);
                    assert(cur[k0] == scan_coord(p));
                }
            }
        }
    }
}


/// The rectangle's coordinate set in row-major scan order.
pub open spec fn rect_row_major(r: Rect) -> Seq<Vec2> {
    Seq::new(
        (r.w * r.h) as nat,
        |k: int| Vec2 {
            x: (r.x + k % (r.w as int)) as i32,
            y: (r.y + k / (r.w as int)) as i32,
        },
    )
}

/// How many cells of the rectangle lie below scan position `n`.
pub open spec fn rect_cells_below(r: Rect, n: int) -> int {
    let y = n / (GRID_WIDTH as int);
    let x = n % (GRID_WIDTH as int);
    if y < r.y {
        0
    } else if y >= r.y + r.h {
        r.w * r.h
    } else {
        (y - r.y) * (r.w as int) + (
        if x < r.x {
            0int
        } else if x >= r.x + r.w {
            r.w as int
        } else {
            x - r.x
        })
    }
}

/// On a surface holding exactly a filled rectangle, the cells derasterized
/// below scan position `n` are exactly the first `rect_cells_below(r, n)`
/// coordinates of the rectangle in row-major order.
proof fn lemma_deraster_rect_prefix(bm: Seq<bool>, r: Rect, n: int)
    requires
        bm.len() == GRID_CELLS,
        0 <= r.x,
        0 <= r.y,
        r.x + r.w <= GRID_WIDTH,
        r.y + r.h <= GRID_HEIGHT,
        forall|x: int, y: int| on_grid(x, y)
            ==> (bm[#[trigger] cell_index(x, y)] <==> in_rect(r, x, y)),
        0 <= n <= GRID_CELLS,
    ensures
        0 <= rect_cells_below(r, n) <= r.w * r.h,
        deraster_upto(bm, n) == rect_row_major(r).take(rect_cells_below(r, n)),
    decreases n,
{
    let w = r.w as int;
    let h = r.h as int;
    assert(r.w * r.h == h * w && h * w >= 0) by (nonlinear_arith)
        requires w == r.w as int, h == r.h as int;
    if n <= 0 {
        assert(0int / (GRID_WIDTH as int) == 0 && 0int % (GRID_WIDTH as int) == 0);
        if r.y == 0 {
            assert((0 - r.y) * w == 0) by (nonlinear_arith)
                requires r.y == 0;
        }
        if r.h == 0 {
            assert(h * w == 0) by (nonlinear_arith)
                requires h == 0;
        }
        assert(rect_cells_below(r, 0) == 0);
        assert(rect_row_major(r).take(0) =~= Seq::<Vec2>::empty());
    } else {
        lemma_deraster_rect_prefix(bm, r, n - 1);
        let p = n - 1;
        let y = p / (GRID_WIDTH as int);
        let x = p % (GRID_WIDTH as int);
        assert(p == y * (GRID_WIDTH as int) + x && 0 <= x < GRID_WIDTH && 0 <= y < GRID_HEIGHT)
            by {
            vstd::arithmetic::div_mod::lemma_fundamental_div_mod(p, GRID_WIDTH as int);
            vstd::arithmetic::div_mod::lemma_mod_bound(p, GRID_WIDTH as int);
            assert(0 <= y < GRID_HEIGHT) by (nonlinear_arith)
                requires
                    p == y * (GRID_WIDTH as int) + x,
                    0 <= x < GRID_WIDTH,
                    0 <= p < GRID_CELLS;
        }
        assert(on_grid(x, y));
        assert(cell_index(x, y) == p);
        assert(scan_coord(p) == (Vec2 { x: x as i32, y: y as i32 }));
        // Decompose scan position n the same way.
        let y1 = n / (GRID_WIDTH as int);
        let x1 = n % (GRID_WIDTH as int);
        if x < GRID_WIDTH - 1 {
            vstd::arithmetic::div_mod::lemma_fundamental_div_mod_converse_div(
                n, GRID_WIDTH as int, y, x + 1);
            vstd::arithmetic::div_mod::lemma_fundamental_div_mod_converse_mod(
                n, GRID_WIDTH as int, y, x + 1);
            assert(y1 == y && x1 == x + 1);
        } else {
            assert(n == (y + 1) * (GRID_WIDTH as int) + 0) by (nonlinear_arith)
                requires n == y * (GRID_WIDTH as int) + x + 1, x == GRID_WIDTH - 1;
            vstd::arithmetic::div_mod::lemma_fundamental_div_mod_converse_div(
                n, GRID_WIDTH as int, y + 1, 0);
            vstd::arithmetic::div_mod::lemma_fundamental_div_mod_converse_mod(
                n, GRID_WIDTH as int, y + 1, 0);
            assert(y1 == y + 1 && x1 == 0);
        }
        let c = rect_cells_below(r, p);
        let c1 = rect_cells_below(r, n);
        assert((y + 1 - r.y) * w == (y - r.y) * w + w) by (nonlinear_arith);
        assert(h * w == (h - 1) * w + w) by (nonlinear_arith);
        if bm[p] {
            assert(in_rect(r, x, y));
            assert(c == (y - r.y) * w + (x - r.x));
            if x1 == 0 {
                // The row wrapped; the rectangle's last column sits at the
                // right edge.
                assert(x == GRID_WIDTH - 1 && r.x + w == GRID_WIDTH);
            }
            if y1 >= r.y + r.h {
                assert(y - r.y == h - 1 && x - r.x == w - 1);
            }
            assert(c1 == c + 1);
            assert(0 <= c < h * w) by (nonlinear_arith)
                requires
                    c == (y - r.y) * w + (x - r.x),
                    0 <= y - r.y <= h - 1,
                    0 <= x - r.x < w;
            vstd::arithmetic::div_mod::lemma_fundamental_div_mod_converse_div(
                c, w, y - r.y, x - r.x);
            vstd::arithmetic::div_mod::lemma_fundamental_div_mod_converse_mod(
                c, w, y - r.y, x - r.x);
            assert(rect_row_major(r)[c] == scan_coord(p));
            assert(rect_row_major(r).take(c + 1)
                =~= rect_row_major(r).take(c).push(rect_row_major(r)[c]));
        } else {
            assert(!in_rect(r, x, y));
            if y < r.y {
                if y1 == y + 1 && y1 >= r.y {
                    assert(y1 == r.y);
                    assert((y1 - r.y) * w == 0) by (nonlinear_arith)
                        requires y1 == r.y;
                }
                assert(c1 == c);
            } else if y >= r.y + h {
                assert(c1 == c);
            } else if x < r.x {
                if x1 == 0 && y1 == y + 1 {
                    // x is the last grid column, yet left of the rectangle:
                    // the rectangle is empty at the right edge.
                    assert(w <= 0);
                    if y1 < r.y + h {
                        assert((y1 - r.y) * w == (y - r.y) * w + w);
                    } else {
                        assert(y - r.y == h - 1);
                        assert((y - r.y) * w + w == h * w) by (nonlinear_arith)
                            requires y - r.y == h - 1;
                    }
                }
                assert(c1 == c);
            } else {
                assert(x >= r.x + w);
                if x1 == 0 && y1 == y + 1 {
                    if y1 < r.y + h {
                        assert((y1 - r.y) * w == (y - r.y) * w + w);
                    } else {
                        assert(y - r.y == h - 1);
                        assert((y - r.y) * w + w == h * w) by (nonlinear_arith)
                            requires y - r.y == h - 1;
                    }
                }
                assert(c1 == c);
            }
        }
    }
}

/// Derasterization round trip for a filled rectangle: on a surface holding
/// exactly a filled rectangle, the derasterized list is exactly the
/// rectangle's coordinate set, in row-major scan order, with no duplicates.
pub proof fn lemma_rect_roundtrip(bm: Seq<bool>, r: Rect)
    requires
        bm.len() == GRID_CELLS,
        0 <= r.x,
        0 <= r.y,
        r.x + r.w <= GRID_WIDTH,
        r.y + r.h <= GRID_HEIGHT,
        forall|x: int, y: int| on_grid(x, y)
            ==> (bm[#[trigger] cell_index(x, y)] <==> in_rect(r, x, y)),
    ensures
        forall|k: int| 0 <= k < deraster(bm).len()
            ==> in_rect(r, (#[trigger] deraster(bm)[k]).x as int, deraster(bm)[k].y as int),
        forall|x: int, y: int| in_rect(r, x, y)
            ==> exists|k: int| 0 <= k < deraster(bm).len()
                && #[trigger] deraster(bm)[k] == (Vec2 { x: x as i32, y: y as i32 }),
        forall|k1: int, k2: int| 0 <= k1 < k2 < deraster(bm).len()
            ==> scan_index(#[trigger] deraster(bm)[k1])
                < scan_index(#[trigger] deraster(bm)[k2]),
        deraster(bm).no_duplicates(),
        deraster(bm) == rect_row_major(r),
{
    lemma_deraster_upto_props(bm, GRID_CELLS as int);
    lemma_deraster_rect_prefix(bm, r, GRID_CELLS as int);
    assert(rect_cells_below(r, GRID_CELLS as int) == r.w * r.h) by {
        assert(GRID_CELLS as int / (GRID_WIDTH as int) == GRID_HEIGHT as int);
    }
    assert(rect_row_major(r).take(r.w * r.h) =~= rect_row_major(r));
    let pts = deraster(bm);
    assert forall|k: int| 0 <= k < pts.len()
        implies in_rect(r, (#[trigger] pts[k]).x as int, pts[k].y as int) by {
        let p = pts[k];
        assert(scan_index(p) == cell_index(p.x as int, p.y as int));
        assert(bm[cell_index(p.x as int, p.y as int)]);
    }
    assert forall|x: int, y: int| in_rect(r, x, y)
        implies exists|k: int| 0 <= k < pts.len()
            && #[trigger] pts[k] == (Vec2 { x: x as i32, y: y as i32 }) by {
        assert(on_grid(x, y));
        assert(bm[cell_index(x, y)]);
        let p = cell_index(x, y);
        let k0 = choose|k: int| 0 <= k < deraster_upto(bm, GRID_CELLS as int).len()
            && #[trigger] deraster_upto(bm, GRID_CELLS as int)[k] == scan_coord(p);
        assert(scan_coord(p) == (Vec2 { x: x as i32, y: y as i32 }));
        assert(pts[k0] == (Vec2 { x: x as i32, y: y as i32 }));
    }
    assert forall|k1: int, k2: int| 0 <= k1 < k2 < pts.len()
        implies pts[k1] != pts[k2] by {
        assert(scan_index(pts[k1]) < scan_index(pts[k2]));
    }
}

} // verus!
