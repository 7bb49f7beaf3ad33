use vstd::prelude::*;
use vstd::arithmetic::div_mod::{
    lemma_div_pos_is_pos, lemma_fundamental_div_mod, lemma_fundamental_div_mod_converse,
    lemma_mod_pos_bound, lemma_multiply_divide_lt,
};

use crate::coord::{
    hex_to_pixel, lemma_transform_injective, transform, AxialCoordinate, GridError,
    PixelPosition, TileRadius,
};

verus! {

/// Number of sides of every tile.
pub const HEX_SIDES: u32 = 6;

/// Radius, in pixels, of the tiles of the reference grid.
pub const HEX_RADIUS: i32 = 50;

/// The reference grid covers q and r from minus this value to this value.
pub const REFERENCE_HALF_WIDTH: u32 = 5;

/// An sRGB fill colour, each channel in hundredths of full intensity.
#[derive(Clone, Copy, Debug, PartialEq, Eq, Structural)]
pub struct FillColor {
    pub red: u8,
    pub green: u8,
    pub blue: u8,
}

impl FillColor {
    pub open spec fn spec_tile_green() -> FillColor {
        FillColor { red: 20, green: 70, blue: 30 }
    }

    /// The green that every tile is filled with.
    pub fn tile_green() -> (c: FillColor)
        ensures
            c == FillColor::spec_tile_green(),
    {
        FillColor { red: 20, green: 70, blue: 30 }
    }
}

/// What a renderer needs to draw one tile: a regular polygon of `sides` sides
/// and the given radius, centred at `position`, filled with `fill`. The cell
/// it stands for is kept in `coord`.
#[derive(Clone, Copy, Debug, PartialEq, Eq, Structural)]
pub struct TileDescriptor {
    pub coord: AxialCoordinate,
    pub position: PixelPosition,
    pub sides: u32,
    pub radius: TileRadius,
    pub fill: FillColor,
}

/// `t` is the tile of cell `(q, r)` for tiles of radius `radius`.
pub open spec fn describes(t: TileDescriptor, q: int, r: int, radius: int) -> bool {
    &&& t.coord.q == q
    &&& t.coord.r == r
    &&& t.position@ == transform(q, r, radius)
    &&& t.sides == HEX_SIDES
    &&& t.radius@ == radius
    &&& t.fill == FillColor::spec_tile_green()
}

/// The tile of one cell: a green hexagon of the shared radius at the cell's centre.
pub fn hex_tile(coord: AxialCoordinate, radius: TileRadius) -> (t: TileDescriptor)
    ensures
        describes(t, coord.q as int, coord.r as int, radius@),
{
    TileDescriptor {
        coord,
        position: hex_to_pixel(coord.q, coord.r, radius),
        sides: HEX_SIDES,
        radius,
        fill: FillColor::tile_green(),
    }
}

/// The inclusive ranges of q and of r that a grid covers; every pair of the
/// two ranges is a cell of the grid. A range whose bounds are crossed is empty.
#[derive(Clone, Copy, Debug, PartialEq, Eq, Structural)]
pub struct GridWindow {
    pub q_min: i32,
    pub q_max: i32,
    pub r_min: i32,
    pub r_max: i32,
}

/// The window of q and r from `-n` to `n`.
pub open spec fn centered_window(n: int) -> GridWindow {
    GridWindow { q_min: (-n) as i32, q_max: n as i32, r_min: (-n) as i32, r_max: n as i32 }
}

impl GridWindow {
    pub open spec fn q_count(self) -> int {
        if self.q_min <= self.q_max {
            self.q_max - self.q_min + 1
        } else {
            0
        }
    }

    pub open spec fn r_count(self) -> int {
        if self.r_min <= self.r_max {
            self.r_max - self.r_min + 1
        } else {
            0
        }
    }

    /// The number of cells of the window.
    pub open spec fn size(self) -> int {
        self.q_count() * self.r_count()
    }

    pub open spec fn contains(self, q: int, r: int) -> bool {
        self.q_min <= q <= self.q_max && self.r_min <= r <= self.r_max
    }

    /// The cell visited at step `i`: q varies slowest, r fastest.
    pub open spec fn cell_at(self, i: int) -> (int, int) {
        (self.q_min + i / self.r_count(), self.r_min + i % self.r_count())
    }

    /// The window of q and r from `-half_width` to `half_width`.
    pub fn centered(half_width: u32) -> (w: GridWindow)
        requires
            half_width <= i32::MAX,
        ensures
            w == centered_window(half_width as int),
            w.size() == (2 * half_width + 1) * (2 * half_width + 1),
    {
        let n = half_width as i32;
        GridWindow { q_min: -n, q_max: n, r_min: -n, r_max: n }
    }

    /// The number of cells of the window, where it fits in a `usize`.
    pub fn tile_count(&self) -> (n: Option<usize>)
        ensures
            n is Some <==> self.size() <= usize::MAX,
            n is Some ==> n->Some_0 == self.size(),
    {
        let qc: u64 = if self.q_min <= self.q_max {
            (self.q_max as i64 - self.q_min as i64 + 1) as u64
        } else {
            0
        };
        let rc: u64 = if self.r_min <= self.r_max {
            (self.r_max as i64 - self.r_min as i64 + 1) as u64
        } else {
            0
        };
        match qc.checked_mul(rc) {
            Some(total) => {
                if total <= usize::MAX as u64 {
                    Some(total as usize)
                } else {
                    None
                }
            },
            None => {
                assert(self.size() > usize::MAX) by (nonlinear_arith)
                    requires
                        self.size() == qc * rc,
                        qc * rc > u64::MAX,
                ;
                None
            },
        }
    }
}

proof fn lemma_counts_positive(w: GridWindow, i: int)
    requires
        0 <= i < w.size(),
    ensures
        w.q_count() > 0,
        w.r_count() > 0,
{
    let qc = w.q_count();
    let rc = w.r_count();
    assert(qc > 0 && rc > 0) by (nonlinear_arith)
        requires
            qc >= 0,
            rc >= 0,
            0 <= i < qc * rc,
    ;
}

proof fn lemma_cell_at_in_window(w: GridWindow, i: int)
    requires
        0 <= i < w.size(),
    ensures
        w.contains(w.cell_at(i).0, w.cell_at(i).1),
{
    lemma_counts_positive(w, i);
    let qc = w.q_count();
    let rc = w.r_count();
    assert(i < rc * qc) by (nonlinear_arith)
        requires
            i < qc * rc,
    ;
    lemma_div_pos_is_pos(i, rc);
    lemma_multiply_divide_lt(i, rc, qc);
    lemma_mod_pos_bound(i, rc);
}

proof fn lemma_cell_at_injective(w: GridWindow, i: int, j: int)
    requires
        0 <= i < j < w.size(),
    ensures
        w.cell_at(i) != w.cell_at(j),
{
    lemma_counts_positive(w, i);
    let rc = w.r_count();
    lemma_fundamental_div_mod(i, rc);
    lemma_fundamental_div_mod(j, rc);
}

/// Every cell of the window is visited, at step `(q - q_min) * r_count + (r - r_min)`.
proof fn lemma_cell_at_covers(w: GridWindow, q: int, r: int)
    requires
        w.contains(q, r),
    ensures
        0 <= (q - w.q_min) * w.r_count() + (r - w.r_min) < w.size(),
        w.cell_at((q - w.q_min) * w.r_count() + (r - w.r_min)) == (q, r),
{
    let qc = w.q_count();
    let rc = w.r_count();
    let k = (q - w.q_min) * rc + (r - w.r_min);
    assert(0 <= k < qc * rc) by (nonlinear_arith)
        requires
            k == (q - w.q_min) * rc + (r - w.r_min),
            0 <= q - w.q_min < qc,
            0 <= r - w.r_min < rc,
    ;
    lemma_fundamental_div_mod_converse(k, rc, q - w.q_min, r - w.r_min);
}

/// `tiles` holds one tile per cell of `w`, in the order of `cell_at`.
pub open spec fn is_grid(tiles: Seq<TileDescriptor>, w: GridWindow, radius: int) -> bool {
    &&& tiles.len() == w.size()
    &&& forall|i: int|
        0 <= i < tiles.len() ==> describes(#[trigger] tiles[i], w.cell_at(i).0, w.cell_at(i).1, radius)
}

/// No two tiles of `tiles` stand at the same position.
pub open spec fn positions_distinct(tiles: Seq<TileDescriptor>) -> bool {
    forall|i: int, j: int|
        0 <= i < j < tiles.len() ==> #[trigger] tiles[i].position != #[trigger] tiles[j].position
}

/// The tiles of every cell of `window`, q-major and r-minor.
pub fn generate_grid(window: GridWindow, radius: TileRadius) -> (tiles: Vec<TileDescriptor>)
    requires
        window.size() <= usize::MAX,
    ensures
        is_grid(tiles@, window, radius@),
        forall|q: int, r: int|
            #![trigger window.contains(q, r)]
            window.contains(q, r) ==> exists|i: int|
                0 <= i < tiles@.len() && tiles@[i].coord.q == q && tiles@[i].coord.r == r,
        positions_distinct(tiles@),
{
    let mut tiles: Vec<TileDescriptor> = Vec::new();
    let total = window.tile_count().unwrap();
    if total == 0 {
        assert forall|q: int, r: int| #[trigger] window.contains(q, r) implies false by {
            lemma_cell_at_covers(window, q, r);
        }
        return tiles;
    }
    proof {
        lemma_counts_positive(window, 0);
        let qc = window.q_count();
        let rc = window.r_count();
        assert(rc <= qc * rc) by (nonlinear_arith)
            requires
                qc >= 1,
                rc >= 1,
        ;
    }
    let rc = (window.r_max as i64 - window.r_min as i64 + 1) as usize;
    let mut i: usize = 0;
    while i < total
        invariant
            total as int == window.size(),
            rc as int == window.r_count(),
            rc > 0,
            0 <= i <= total,
            tiles@.len() == i,
            forall|j: int|
                0 <= j < i ==> describes(
                    #[trigger] tiles@[j],
                    window.cell_at(j).0,
                    window.cell_at(j).1,
                    radius@,
                ),
        decreases total - i,
    {
        proof {
            lemma_cell_at_in_window(window, i as int);
        }
        let q = (window.q_min as i64 + (i / rc) as i64) as i32;
        let r = (window.r_min as i64 + (i % rc) as i64) as i32;
        tiles.push(hex_tile(AxialCoordinate { q, r }, radius));
        i += 1;
    }
    // The radius is positive, so distinct cells get distinct centres.
    let rho = radius.pixels();
    proof {
        assert forall|q: int, r: int| #[trigger] window.contains(q, r) implies exists|i: int|
            0 <= i < tiles@.len() && tiles@[i].coord.q == q && tiles@[i].coord.r == r by {
            lemma_cell_at_covers(window, q, r);
            let k = (q - window.q_min) * window.r_count() + (r - window.r_min);
            assert(describes(tiles@[k], window.cell_at(k).0, window.cell_at(k).1, radius@));
        }
        assert forall|i: int, j: int| 0 <= i < j < tiles@.len() implies #[trigger] tiles@[i].position
            != #[trigger] tiles@[j].position by {
            lemma_cell_at_injective(window, i, j);
            let a = window.cell_at(i);
            let b = window.cell_at(j);
            assert(describes(tiles@[i], a.0, a.1, radius@));
            assert(describes(tiles@[j], b.0, b.1, radius@));
            lemma_transform_injective(a.0, a.1, b.0, b.1, rho as int);
        }
    }
    tiles
}

/// The reference grid: every cell with q and r from -5 to 5, for tiles of the
/// given radius. A radius that is not positive is rejected before any tile is made.
pub fn reference_grid(radius: i32) -> (res: Result<Vec<TileDescriptor>, GridError>)
    ensures
        res is Ok <==> radius > 0,
        res is Err ==> res->Err_0 == GridError::InvalidRadius,
        res is Ok ==> {
            &&& is_grid(res->Ok_0@, centered_window(REFERENCE_HALF_WIDTH as int), radius as int)
            &&& res->Ok_0@.len() == 121
            &&& positions_distinct(res->Ok_0@)
        },
{
    let radius = match TileRadius::new(radius) {
        Ok(rho) => rho,
        Err(e) => return Err(e),
    };
    let window = GridWindow::centered(REFERENCE_HALF_WIDTH);
    assert(window.q_count() == 11 && window.r_count() == 11);
    assert(window.size() == 121) by (nonlinear_arith)
        requires
            window.size() == window.q_count() * window.r_count(),
            window.q_count() == 11,
            window.r_count() == 11,
    ;
    Ok(generate_grid(window, radius))
}

} // verus!
