use vstd::prelude::*;
use vstd::arithmetic::div_mod::*;

use crate::bbox::BBox2;
use crate::common::tdiv;
use crate::vector::{Point2, Vector2};

verus! {

/// Side of a square film tile, in pixels.
pub const TILE_SIZE: i32 = 16;

/// Number of tiles along each axis for a box: its extent divided by the
/// tile size, rounded up (Rust's division, which rounds toward zero).
pub open spec fn tile_counts(bbox: BBox2<i32>) -> (int, int) {
    (
        tdiv(bbox.max.x - bbox.min.x + 15, 16),
        tdiv(bbox.max.y - bbox.min.y + 15, 16),
    )
}

/// Total number of tiles for the given counts per axis.
pub open spec fn tile_total(nx: int, ny: int) -> int {
    if nx > 0 && ny > 0 {
        nx * ny
    } else {
        0
    }
}

/// The tile in column `ix` and row `iy`: it starts `TILE_SIZE` pixels per
/// step from the corner `bbox.min` and is clipped to `bbox.max`.
pub open spec fn tile_at(bbox: BBox2<i32>, ix: int, iy: int) -> BBox2<i32> {
    let lo_x = bbox.min.x + 16 * ix;
    let lo_y = bbox.min.y + 16 * iy;
    let hi_x = if lo_x + 16 < bbox.max.x {
        lo_x + 16
    } else {
        bbox.max.x as int
    };
    let hi_y = if lo_y + 16 < bbox.max.y {
        lo_y + 16
    } else {
        bbox.max.y as int
    };
    BBox2 { min: Point2 { x: lo_x as i32, y: lo_y as i32 }, max: Point2 { x: hi_x as i32, y: hi_y as i32 } }
}

/// All tiles of a box in row-major order: row by row from `min.y`, and
/// within a row from `min.x`.
pub open spec fn all_tiles(bbox: BBox2<i32>) -> Seq<BBox2<i32>> {
    let (nx, ny) = tile_counts(bbox);
    Seq::new(tile_total(nx, ny) as nat, |m: int| tile_at(bbox, m % nx, m / nx))
}

/// The arithmetic of tiling `bbox` fits in `i32`: its extent plus the tile
/// size, and the end of the last tile on each axis when there are tiles.
pub open spec fn tiling_fits(bbox: BBox2<i32>) -> bool {
    let (nx, ny) = tile_counts(bbox);
    &&& i32::MIN <= bbox.max.x - bbox.min.x
    &&& bbox.max.x - bbox.min.x + 16 <= i32::MAX
    &&& i32::MIN <= bbox.max.y - bbox.min.y
    &&& bbox.max.y - bbox.min.y + 16 <= i32::MAX
    &&& (nx > 0 && ny > 0) ==> bbox.min.x + 16 * nx <= i32::MAX && bbox.min.y + 16 * ny <= i32::MAX
}

/// Iterator over the film tiles of a box.
pub struct FilmTileIter {
    bbox: BBox2<i32>,
    n_tiles: Vector2<i32>,
    i: Point2<i32>,
}

impl FilmTileIter {
    /// Position of the next tile in the row-major order.
    pub closed spec fn cursor(self) -> int {
        self.i.y * self.n_tiles.x + self.i.x
    }

    /// The state stays within the tile grid.
    #[verifier::type_invariant]
    spec fn wf(self) -> bool {
        let (nx, ny) = tile_counts(self.bbox);
        &&& tiling_fits(self.bbox)
        &&& self.n_tiles.x == nx
        &&& self.n_tiles.y == ny
        &&& 0 <= self.i.x
        &&& 0 <= self.i.y
        &&& nx > 0 ==> self.i.x <= nx
        &&& nx <= 0 ==> self.i.x == 0
        &&& ny > 0 ==> self.i.y <= ny
        &&& ny <= 0 ==> self.i.y == 0
        &&& self.i.y < ny || self.i.x == 0
    }

    /// While tiles are left, the next one is the tile at the current column
    /// and row, and the tiles left are those from the cursor on.
    proof fn lemma_view(self)
        requires
            self.wf(),
        ensures
            ({
                let (nx, ny) = tile_counts(self.bbox);
                let total = tile_total(nx, ny);
                &&& self.i.y < ny && self.i.x < nx ==> {
                    &&& self@.len() == total - self.cursor()
                    &&& self@.len() > 0
                    &&& self@[0] == tile_at(self.bbox, self.i.x as int, self.i.y as int)
                }
                &&& self.i.y >= ny ==> self@.len() == 0
            }),
    {
        let (nx, ny) = tile_counts(self.bbox);
        let total = tile_total(nx, ny);
        let k = self.cursor();
        if self.i.y < ny && self.i.x < nx {
            assert(0 <= k < total) by (nonlinear_arith)
                requires
                    k == self.i.y * nx + self.i.x,
                    0 <= self.i.x < nx,
                    0 <= self.i.y < ny,
                    total == nx * ny,
            ;
            lemma_fundamental_div_mod_converse(k, nx, self.i.y as int, self.i.x as int);
        }
        if self.i.y >= ny && ny > 0 && nx > 0 {
            assert(k == total) by (nonlinear_arith)
                requires
                    k == self.i.y * self.n_tiles.x + self.i.x,
                    self.i.x == 0,
                    self.i.y == ny,
                    self.n_tiles.x == nx,
                    total == nx * ny,
            ;
        }
    }

    /// The tiles of `sample_bbox`, in row-major order.
    pub fn new(sample_bbox: BBox2<i32>) -> (r: FilmTileIter)
        requires
            tiling_fits(sample_bbox),
        ensures
            r@ == all_tiles(sample_bbox),
    {
        let d = sample_bbox.diagonal();
        assert(d.x == sample_bbox.max.x - sample_bbox.min.x);
        assert(d.y == sample_bbox.max.y - sample_bbox.min.y);
        let n_tiles = Vector2::new((d.x + TILE_SIZE - 1) / TILE_SIZE, (d.y + TILE_SIZE - 1) / TILE_SIZE);
        let r = FilmTileIter { bbox: sample_bbox, n_tiles, i: Point2::new(0, 0) };
        proof {
            let (nx, ny) = tile_counts(sample_bbox);
            let total = tile_total(nx, ny);
            if total > 0 {
                assert(r.cursor() == 0);
            }
            assert(r@ =~= all_tiles(sample_bbox));
        }
        r
    }

    /// The next tile, if any is left.
    pub fn next(&mut self) -> (r: Option<BBox2<i32>>)
        ensures
            old(self)@.len() > 0 ==> r == Some(old(self)@[0]) && final(self)@ == old(self)@.drop_first(),
            old(self)@.len() == 0 ==> r is None && final(self)@.len() == 0,
    {
        proof {
            use_type_invariant(&*self);
        }
        let ghost start = *self;
        loop
            invariant
                self.wf(),
                self.bbox == start.bbox,
                self@ == start@,
                start == *old(self),
            decreases self.n_tiles.y - self.i.y,
        {
            proof {
                self.lemma_view();
            }
            if self.i.y >= self.n_tiles.y {
                return None;
            } else if self.i.x >= self.n_tiles.x {
                proof {
                    assert((self.i.y + 1) * self.n_tiles.x == self.i.y * self.n_tiles.x + self.n_tiles.x)
                        by (nonlinear_arith);
                }
                self.i.x = 0;
                self.i.y += 1;
                proof {
                    assert(self@ =~= start@);
                }
            } else {
                proof {
                    let (nx, ny) = tile_counts(self.bbox);
                    assert(16 * self.i.x < 16 * nx && 16 * self.i.y < 16 * ny);
                    assert(16 * nx <= self.bbox.max.x - self.bbox.min.x + 15);
                    assert(16 * ny <= self.bbox.max.y - self.bbox.min.y + 15);
                }
                let min = Point2::new(
                    self.bbox.min.x + self.i.x * TILE_SIZE,
                    self.bbox.min.y + self.i.y * TILE_SIZE,
                );
                let max = Point2::new(min.x + TILE_SIZE, min.y + TILE_SIZE).min(self.bbox.max);
                let tile = Some(BBox2::new(min, max));
                let ghost before = *self;
                self.i.x += 1;
                proof {
                    let (nx, ny) = tile_counts(self.bbox);
                    assert(16 * nx <= self.bbox.max.x - self.bbox.min.x + 15);
                    assert(tile == Some(tile_at(self.bbox, before.i.x as int, before.i.y as int)));
                    assert(self.cursor() == before.cursor() + 1);
                    assert(self@ =~= before@.drop_first());
                }
                return tile;
            }
        }
    }
}

impl View for FilmTileIter {
    type V = Seq<BBox2<i32>>;

    /// The tiles that are still to come.
    closed spec fn view(&self) -> Seq<BBox2<i32>> {
        let (nx, ny) = tile_counts(self.bbox);
        let total = tile_total(nx, ny);
        let k = if total > 0 {
            self.cursor()
        } else {
            0
        };
        all_tiles(self.bbox).subrange(if k < total { k } else { total }, total)
    }
}

/// Pixel `(px, py)` lies in the rectangle, maxima excluded.
pub open spec fn holds_pixel(b: BBox2<i32>, px: int, py: int) -> bool {
    b.min.x <= px < b.max.x && b.min.y <= py < b.max.y
}

/// Column and row of tile `m` in the grid, and the facts that place them.
proof fn lemma_tile_grid(bbox: BBox2<i32>, m: int)
    requires
        tiling_fits(bbox),
        0 <= m < all_tiles(bbox).len(),
    ensures
        ({
            let (nx, ny) = tile_counts(bbox);
            &&& nx > 0 && ny > 0
            &&& 0 <= m % nx < nx
            &&& 0 <= m / nx < ny
            &&& m == (m / nx) * nx + m % nx
            &&& 16 * nx <= bbox.max.x - bbox.min.x + 15
            &&& 16 * ny <= bbox.max.y - bbox.min.y + 15
        }),
{
    let (nx, ny) = tile_counts(bbox);
    lemma_fundamental_div_mod(m, nx);
    lemma_mod_bound(m, nx);
    lemma_div_pos_is_pos(m, nx);
    assert(m < nx * ny);
    lemma_multiply_divide_lt(m, nx, ny);
    assert(m == (m / nx) * nx + m % nx) by (nonlinear_arith)
        requires
            m == nx * (m / nx) + m % nx,
    ;
}

/// Every tile lies inside the box, is not empty, and is at most `TILE_SIZE`
/// pixels wide and high.
pub proof fn lemma_tiles_inside(bbox: BBox2<i32>, m: int)
    requires
        tiling_fits(bbox),
        0 <= m < all_tiles(bbox).len(),
    ensures
        ({
            let t = all_tiles(bbox)[m];
            &&& bbox.min.x <= t.min.x < t.max.x <= bbox.max.x
            &&& bbox.min.y <= t.min.y < t.max.y <= bbox.max.y
            &&& t.max.x - t.min.x <= TILE_SIZE
            &&& t.max.y - t.min.y <= TILE_SIZE
        }),
{
    lemma_tile_grid(bbox, m);
}

/// The tiles partition the box: each pixel of the box lies in exactly one
/// tile.
pub proof fn lemma_tiles_partition(bbox: BBox2<i32>, px: int, py: int)
    requires
        tiling_fits(bbox),
        holds_pixel(bbox, px, py),
    ensures
        exists|m: int| 0 <= m < all_tiles(bbox).len() && holds_pixel(#[trigger] all_tiles(bbox)[m], px, py),
        forall|m1: int, m2: int|
            0 <= m1 < all_tiles(bbox).len() && 0 <= m2 < all_tiles(bbox).len() && holds_pixel(
                #[trigger] all_tiles(bbox)[m1],
                px,
                py,
            ) && holds_pixel(#[trigger] all_tiles(bbox)[m2], px, py) ==> m1 == m2,
{
    let (nx, ny) = tile_counts(bbox);
    let ix = (px - bbox.min.x) / 16;
    let iy = (py - bbox.min.y) / 16;
    let dx = bbox.max.x - bbox.min.x;
    let dy = bbox.max.y - bbox.min.y;
    assert(nx == (dx + 15) / 16 && ny == (dy + 15) / 16);
    lemma_fundamental_div_mod(dx + 15, 16);
    lemma_fundamental_div_mod(dy + 15, 16);
    lemma_fundamental_div_mod(px - bbox.min.x, 16);
    lemma_fundamental_div_mod(py - bbox.min.y, 16);
    lemma_mod_bound(dx + 15, 16);
    lemma_mod_bound(dy + 15, 16);
    lemma_mod_bound(px - bbox.min.x, 16);
    lemma_mod_bound(py - bbox.min.y, 16);
    assert(0 <= ix < nx && 0 <= iy < ny);
    let m = iy * nx + ix;
    assert(0 <= m < nx * ny) by (nonlinear_arith)
        requires
            m == iy * nx + ix,
            0 <= ix < nx,
            0 <= iy < ny,
    ;
    lemma_tile_grid(bbox, m);
    lemma_fundamental_div_mod_converse(m, nx, iy, ix);
    assert(holds_pixel(all_tiles(bbox)[m], px, py));
    assert forall|m1: int, m2: int|
        0 <= m1 < all_tiles(bbox).len() && 0 <= m2 < all_tiles(bbox).len() && holds_pixel(
            #[trigger] all_tiles(bbox)[m1],
            px,
            py,
        ) && holds_pixel(#[trigger] all_tiles(bbox)[m2], px, py) implies m1 == m2 by {
        lemma_tile_grid(bbox, m1);
        lemma_tile_grid(bbox, m2);
        assert(m1 % nx == ix && m1 / nx == iy);
        assert(m2 % nx == ix && m2 / nx == iy);
    }
}

/// Offset of pixel `(x, y)` in the row-major pixel array of a tile covering
/// `bbox`: rows are `bbox.max.x - bbox.min.x` pixels wide and the first
/// pixel is `bbox.min`.
pub open spec fn pixel_offset_in(bbox: BBox2<i32>, x: int, y: int) -> int {
    (bbox.max.x - bbox.min.x) * (y - bbox.min.y) + (x - bbox.min.x)
}

/// Offset of pixel `(x, y)` in the pixel array of a film tile covering
/// `bbox`, computed in `i32` and converted to `usize`: a pixel outside the
/// box above or left of it gets a negative offset, which the conversion
/// wraps around.
pub fn tile_pixel_offset(bbox: BBox2<i32>, x: i32, y: i32) -> (r: usize)
    requires
        i32::MIN <= x - bbox.min.x <= i32::MAX,
        i32::MIN <= y - bbox.min.y <= i32::MAX,
        i32::MIN <= bbox.max.x - bbox.min.x <= i32::MAX,
        i32::MIN <= (bbox.max.x - bbox.min.x) * (y - bbox.min.y) <= i32::MAX,
        i32::MIN <= pixel_offset_in(bbox, x as int, y as int) <= i32::MAX,
    ensures
        r == pixel_offset_in(bbox, x as int, y as int) as usize,
        holds_pixel(bbox, x as int, y as int) ==> r == pixel_offset_in(bbox, x as int, y as int),
{
    let mut x = x;
    let mut y = y;
    x -= bbox.min.x;
    y -= bbox.min.y;
    let width = bbox.max.x - bbox.min.x;
    proof {
        if holds_pixel(bbox, (x + bbox.min.x) as int, (y + bbox.min.y) as int) {
            assert(0 <= width * y) by (nonlinear_arith)
                requires
                    width > 0,
                    y >= 0,
            ;
        }
    }
    return (width * y + x) as usize;
}

/// Offset of pixel `p` in the pixel array of a film of the given
/// resolution, computed in `i32` and converted to `usize`.
pub fn film_pixel_offset(resolution: Point2<i32>, p: Point2<i32>) -> (r: usize)
    requires
        i32::MIN <= resolution.x * p.y <= i32::MAX,
        i32::MIN <= resolution.x * p.y + p.x <= i32::MAX,
    ensures
        r == (resolution.x * p.y + p.x) as usize,
        0 <= resolution.x && 0 <= p.x && 0 <= p.y ==> r == resolution.x * p.y + p.x,
{
    let width = resolution.x;
    proof {
        if 0 <= width && 0 <= p.y {
            assert(0 <= width * p.y) by (nonlinear_arith)
                requires
                    width >= 0,
                    p.y >= 0,
            ;
        }
    }
    return (width * p.y + p.x) as usize;
}

/// Pixel offsets number the pixels of a box one to one from zero up to its
/// area.
pub proof fn lemma_pixel_offset_bijective(bbox: BBox2<i32>, x1: int, y1: int, x2: int, y2: int)
    requires
        holds_pixel(bbox, x1, y1),
        holds_pixel(bbox, x2, y2),
    ensures
        0 <= pixel_offset_in(bbox, x1, y1) < (bbox.max.x - bbox.min.x) * (bbox.max.y - bbox.min.y),
        pixel_offset_in(bbox, x1, y1) == pixel_offset_in(bbox, x2, y2) ==> x1 == x2 && y1 == y2,
{
    let w = bbox.max.x - bbox.min.x;
    let h = bbox.max.y - bbox.min.y;
    let (u1, v1, u2, v2) = (x1 - bbox.min.x, y1 - bbox.min.y, x2 - bbox.min.x, y2 - bbox.min.y);
    assert(0 <= w * v1 + u1 < w * h) by (nonlinear_arith)
        requires
            0 <= u1 < w,
            0 <= v1 < h,
    ;
    if w * v1 + u1 == w * v2 + u2 {
        lemma_fundamental_div_mod_converse(w * v1 + u1, w, v1, u1);
        lemma_fundamental_div_mod_converse(w * v2 + u2, w, v2, u2);
    }
}

} // verus!
