//! The outside containers the maps are built on: `sark_grids::Grid` for the
//! cells and `arrayvec::ArrayVec` for the exits of a position.
use crate::grid_pos::{key, GridPos};
use crate::weighted::GridCell;
use arrayvec::ArrayVec;
use sark_grids::{Grid, SizedGrid};
use vstd::prelude::*;

verus! {

#[verifier::external_type_specification]
#[verifier::external_body]
#[verifier::reject_recursive_types(T)]
pub struct ExGrid<T>(Grid<T>);

#[verifier::external_type_specification]
#[verifier::external_body]
#[verifier::reject_recursive_types(T)]
pub struct ExArrayVec<T, const CAP: usize>(ArrayVec<T, CAP>);

/// Whether key `k` lies in the rectangle `[0, w) x [0, h)`.
pub open spec fn in_rect(w: u32, h: u32, k: (int, int)) -> bool {
    0 <= k.0 < w && 0 <= k.1 < h
}

/// Whether `Grid::filled` can make a grid of this size without overflowing
/// its `i32` arithmetic.
pub open spec fn fits_grid(size: [u32; 2]) -> bool {
    size@[0] <= i32::MAX && size@[1] <= i32::MAX && size@[0] * size@[1] <= i32::MAX
}

/// What a grid of flags holds, by position; its domain is the grid's bounds.
pub uninterp spec fn flags_of(g: Grid<bool>) -> Map<(int, int), bool>;

/// What a grid of terrain cells holds, by position; its domain is the
/// grid's bounds.
pub uninterp spec fn terrain_of(g: Grid<GridCell>) -> Map<(int, int), GridCell>;

/// The positions an exit buffer holds, in order.
pub uninterp spec fn exits_of(v: ArrayVec<GridPos, 8>) -> Seq<GridPos>;

/// Relies on `Grid::filled`: a grid of `size[0]` columns and `size[1]` rows,
/// every cell set to `value`.
#[verifier::external_body]
pub(crate) fn flags_filled(value: bool, size: [u32; 2]) -> (r: Grid<bool>)
    requires
        fits_grid(size),
    ensures
        flags_of(r) == Map::new(|k: (int, int)| in_rect(size@[0], size@[1], k), |k: (int, int)| value),
{
    Grid::filled(value, size)
}

/// Relies on `SizedGrid::in_bounds` for `Grid`: whether `p` lies in the grid.
#[verifier::external_body]
pub(crate) fn flags_in_bounds(g: &Grid<bool>, p: GridPos) -> (r: bool)
    ensures
        r == flags_of(*g).dom().contains(key(p)),
{
    g.in_bounds([p.x, p.y])
}

/// Relies on `Index` for `Grid`: the value stored at `p`.
#[verifier::external_body]
pub(crate) fn flag_at(g: &Grid<bool>, p: GridPos) -> (r: bool)
    requires
        flags_of(*g).dom().contains(key(p)),
    ensures
        r == flags_of(*g)[key(p)],
{
    g[[p.x, p.y]]
}

/// Relies on `IndexMut` for `Grid`: stores `v` at `p` and nothing else.
#[verifier::external_body]
pub(crate) fn set_flag(g: &mut Grid<bool>, p: GridPos, v: bool)
    requires
        flags_of(*old(g)).dom().contains(key(p)),
    ensures
        flags_of(*final(g)) == flags_of(*old(g)).insert(key(p), v),
{
    g[[p.x, p.y]] = v;
}

/// Relies on `Grid::filled`: a grid of `size[0]` columns and `size[1]` rows,
/// every cell set to `value`.
#[verifier::external_body]
pub(crate) fn terrain_filled(value: GridCell, size: [u32; 2]) -> (r: Grid<GridCell>)
    requires
        fits_grid(size),
    ensures
        terrain_of(r) == Map::new(|k: (int, int)| in_rect(size@[0], size@[1], k), |k: (int, int)| value),
{
    Grid::filled(value, size)
}

/// Relies on `SizedGrid::in_bounds` for `Grid`: whether `p` lies in the grid.
#[verifier::external_body]
pub(crate) fn terrain_in_bounds(g: &Grid<GridCell>, p: GridPos) -> (r: bool)
    ensures
        r == terrain_of(*g).dom().contains(key(p)),
{
    g.in_bounds([p.x, p.y])
}

/// Relies on `Index` for `Grid`: the value stored at `p`.
#[verifier::external_body]
pub(crate) fn terrain_at(g: &Grid<GridCell>, p: GridPos) -> (r: GridCell)
    requires
        terrain_of(*g).dom().contains(key(p)),
    ensures
        r == terrain_of(*g)[key(p)],
{
    g[[p.x, p.y]]
}

/// Relies on `IndexMut` for `Grid`: stores `v` at `p` and nothing else.
#[verifier::external_body]
pub(crate) fn set_terrain(g: &mut Grid<GridCell>, p: GridPos, v: GridCell)
    requires
        terrain_of(*old(g)).dom().contains(key(p)),
    ensures
        terrain_of(*final(g)) == terrain_of(*old(g)).insert(key(p), v),
{
    g[[p.x, p.y]] = v;
}

/// Relies on `ArrayVec::new`: an empty buffer.
#[verifier::external_body]
pub(crate) fn no_exits() -> (r: ArrayVec<GridPos, 8>)
    ensures
        exits_of(r) == Seq::<GridPos>::empty(),
{
    ArrayVec::new()
}

/// Relies on `ArrayVec::push`: appends `p`; it panics only when full.
#[verifier::external_body]
pub(crate) fn push_exit(v: &mut ArrayVec<GridPos, 8>, p: GridPos)
    requires
        exits_of(*old(v)).len() < 8,
    ensures
        exits_of(*final(v)) == exits_of(*old(v)).push(p),
{
    v.push(p);
}

} // verus!
