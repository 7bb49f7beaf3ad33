//! A finite hexagonal grid of pointy-top tiles in axial coordinates.
//!
//! Canvas positions are held exactly: the horizontal coordinate is an integer
//! multiple of `sqrt(3) / 2` and the vertical one an integer multiple of
//! `1 / 2`, so the transform, its injectivity, its linearity in the radius and
//! the spacing of neighbouring tiles are all stated and proved over integers.
//! A renderer turns a position into floating point only at the last step.

mod coord;
mod grid;

pub use coord::{
    hex_to_pixel, is_neighbor_offset, lemma_neighbor_distance, lemma_transform_injective,
    lemma_transform_linear, quadruple_squared_distance, transform, AxialCoordinate, GridError,
    PixelPosition, TileRadius,
};
pub use grid::{
    centered_window, describes, generate_grid, hex_tile, is_grid, positions_distinct,
    reference_grid, FillColor, GridWindow, TileDescriptor, HEX_RADIUS, HEX_SIDES,
    REFERENCE_HALF_WIDTH,
};
