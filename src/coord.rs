use vstd::prelude::*;

verus! {

/// A cell of a pointy-top hexagonal grid, addressed by its axial coordinates.
#[derive(Clone, Copy, Debug, PartialEq, Eq, Hash, Structural)]
pub struct AxialCoordinate {
    pub q: i32,
    pub r: i32,
}

/// Why a grid cannot be set up.
#[derive(Clone, Copy, Debug, PartialEq, Eq, Structural)]
pub enum GridError {
    /// The tile radius is zero or negative.
    InvalidRadius,
}

/// The radius shared by every tile of a grid, in canvas pixels; always positive.
#[derive(Clone, Copy, Debug, PartialEq, Eq, Structural)]
pub struct TileRadius {
    pixels: i32,
}

impl TileRadius {
    #[verifier::type_invariant]
    spec fn positive(self) -> bool {
        self.pixels > 0
    }

    pub closed spec fn view(self) -> int {
        self.pixels as int
    }

    /// Establishes a radius; a non-positive one is rejected.
    pub fn new(pixels: i32) -> (res: Result<TileRadius, GridError>)
        ensures
            res is Ok <==> pixels > 0,
            res is Ok ==> res->Ok_0@ == pixels,
            res is Err ==> res->Err_0 == GridError::InvalidRadius,
    {
        if pixels > 0 {
            Ok(TileRadius { pixels })
        } else {
            Err(GridError::InvalidRadius)
        }
    }

    pub fn pixels(&self) -> (r: i32)
        ensures
            r == self@,
            r > 0,
    {
        proof {
            use_type_invariant(self);
        }
        self.pixels
    }
}

/// A point of the canvas, held exactly.
///
/// The point is `(x_units * sqrt(3) / 2, y_units / 2)` in canvas pixels:
/// every tile centre of a grid with an integer radius has this form.
#[derive(Clone, Copy, Debug, PartialEq, Eq, Structural)]
pub struct PixelPosition {
    pub x_units: i128,
    pub y_units: i128,
}

impl PixelPosition {
    pub open spec fn view(self) -> (int, int) {
        (self.x_units as int, self.y_units as int)
    }
}

/// The centre of cell `(q, r)` for tiles of the given radius, in the units of
/// `PixelPosition`: `x = radius * sqrt(3) * (q + r / 2)` is
/// `radius * (2q + r)` halves of `sqrt(3)`, and `y = radius * 1.5 * r` is
/// `3 * radius * r` halves.
pub open spec fn transform(q: int, r: int, radius: int) -> (int, int) {
    (radius * (2 * q + r), 3 * radius * r)
}

/// Four times the squared canvas distance between two points, which is an
/// integer: `3 * dx^2 + dy^2` over the differences of their units.
pub open spec fn quadruple_squared_distance(a: (int, int), b: (int, int)) -> int {
    3 * (a.0 - b.0) * (a.0 - b.0) + (a.1 - b.1) * (a.1 - b.1)
}

/// The six axial offsets that lead from a cell to the cells sharing an edge with it.
pub open spec fn is_neighbor_offset(dq: int, dr: int) -> bool {
    ||| (dq == 1 && dr == 0)
    ||| (dq == 1 && dr == -1)
    ||| (dq == 0 && dr == -1)
    ||| (dq == -1 && dr == 0)
    ||| (dq == -1 && dr == 1)
    ||| (dq == 0 && dr == 1)
}

/// The canvas position of the centre of cell `(q, r)`.
pub fn hex_to_pixel(q: i32, r: i32, radius: TileRadius) -> (p: PixelPosition)
    ensures
        p@ == transform(q as int, r as int, radius@),
{
    let rho = radius.pixels() as i128;
    let q = q as i128;
    let r = r as i128;
    assert(-0x1_0000_0000_0000_0000i128 <= rho * (2 * q + r) <= 0x1_0000_0000_0000_0000i128)
        by (nonlinear_arith)
        requires
            0 < rho <= 0x7fff_ffff,
            -0x8000_0000 <= q <= 0x7fff_ffff,
            -0x8000_0000 <= r <= 0x7fff_ffff,
    ;
    assert(-0x1_0000_0000_0000_0000i128 <= 3 * rho * r <= 0x1_0000_0000_0000_0000i128)
        by (nonlinear_arith)
        requires
            0 < rho <= 0x7fff_ffff,
            -0x8000_0000 <= r <= 0x7fff_ffff,
    ;
    PixelPosition { x_units: rho * (2 * q + r), y_units: 3 * rho * r }
}

/// Distinct cells have distinct centres, for every positive radius.
pub proof fn lemma_transform_injective(q1: int, r1: int, q2: int, r2: int, radius: int)
    requires
        radius > 0,
        q1 != q2 || r1 != r2,
    ensures
        transform(q1, r1, radius) != transform(q2, r2, radius),
{
    if transform(q1, r1, radius) == transform(q2, r2, radius) {
        assert(r1 == r2) by (nonlinear_arith)
            requires
                radius > 0,
                3 * radius * r1 == 3 * radius * r2,
        ;
        assert(q1 == q2) by (nonlinear_arith)
            requires
                radius > 0,
                r1 == r2,
                radius * (2 * q1 + r1) == radius * (2 * q2 + r2),
        ;
    }
}

/// Scaling the radius by `k` scales both coordinates of every centre by `k`;
/// in particular doubling the radius doubles every position.
pub proof fn lemma_transform_linear(q: int, r: int, radius: int, k: int)
    ensures
        transform(q, r, k * radius).0 == k * transform(q, r, radius).0,
        transform(q, r, k * radius).1 == k * transform(q, r, radius).1,
{
    assert(k * radius * (2 * q + r) == k * (radius * (2 * q + r))) by (nonlinear_arith);
    assert(3 * (k * radius) * r == k * (3 * radius * r)) by (nonlinear_arith);
}

/// The centres of two cells that share an edge lie `radius * sqrt(3)` apart,
/// wherever the cell is: four times the squared distance is `12 * radius^2`.
pub proof fn lemma_neighbor_distance(q: int, r: int, dq: int, dr: int, radius: int)
    requires
        is_neighbor_offset(dq, dr),
    ensures
        quadruple_squared_distance(transform(q, r, radius), transform(q + dq, r + dr, radius))
            == 12 * radius * radius,
{
    let a = transform(q, r, radius);
    let b = transform(q + dq, r + dr, radius);
    assert(a.0 - b.0 == -radius * (2 * dq + dr)) by (nonlinear_arith)
        requires
            a.0 == radius * (2 * q + r),
            b.0 == radius * (2 * (q + dq) + (r + dr)),
    ;
    assert(a.1 - b.1 == -3 * radius * dr) by (nonlinear_arith)
        requires
            a.1 == 3 * radius * r,
            b.1 == 3 * radius * (r + dr),
    ;
    assert(3 * (a.0 - b.0) * (a.0 - b.0) + (a.1 - b.1) * (a.1 - b.1) == 12 * radius * radius)
        by (nonlinear_arith)
        requires
            a.0 - b.0 == -radius * (2 * dq + dr),
            a.1 - b.1 == -3 * radius * dr,
            is_neighbor_offset(dq, dr),
    ;
}

} // verus!
