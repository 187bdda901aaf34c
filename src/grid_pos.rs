//! Grid positions, their neighbourhood and the distance between them.
use sark_grids::GridPoint;
use vstd::prelude::*;

verus! {

/// An integer position on a 2d grid.
#[derive(Clone, Copy, Debug, PartialEq, Eq, Hash, Structural)]
pub struct GridPos {
    pub x: i32,
    pub y: i32,
}

/// The key of a position in a grid's contents.
pub open spec fn key(p: GridPos) -> (int, int) {
    (p.x as int, p.y as int)
}

/// The absolute value of `v`.
pub open spec fn abs(v: int) -> nat {
    if v < 0 {
        (-v) as nat
    } else {
        v as nat
    }
}

/// Taxicab (Manhattan) distance between two positions.
pub open spec fn taxicab(a: GridPos, b: GridPos) -> nat {
    abs(a.x - b.x) + abs(a.y - b.y)
}

/// Taxicab distance is symmetric and zero from a position to itself.
pub proof fn lemma_taxicab(a: GridPos, b: GridPos)
    ensures
        taxicab(a, b) == taxicab(b, a),
        taxicab(a, a) == 0,
{
}

/// `p` moved by `(dx, dy)`.
pub open spec fn offset(p: GridPos, dx: int, dy: int) -> GridPos {
    GridPos { x: (p.x + dx) as i32, y: (p.y + dy) as i32 }
}

/// Whether every position next to `p` is representable.
pub open spec fn has_neighbors(p: GridPos) -> bool {
    i32::MIN < p.x < i32::MAX && i32::MIN < p.y < i32::MAX
}

/// The 8-connected neighbourhood of `p`: up, down, left, right, then
/// up-left, up-right, down-left, down-right.
pub open spec fn neighbors(p: GridPos) -> Seq<GridPos> {
    seq![
        offset(p, 0, 1),
        offset(p, 0, -1),
        offset(p, -1, 0),
        offset(p, 1, 0),
        offset(p, -1, 1),
        offset(p, 1, 1),
        offset(p, -1, -1),
        offset(p, 1, -1),
    ]
}

/// Whether `q` is one of the eight positions next to `p`.
pub open spec fn adjacent(p: GridPos, q: GridPos) -> bool {
    q != p && abs(q.x - p.x) <= 1 && abs(q.y - p.y) <= 1
}

/// The neighbourhood holds eight distinct positions, each adjacent to `p`.
pub proof fn lemma_neighbors(p: GridPos)
    requires
        has_neighbors(p),
    ensures
        neighbors(p).len() == 8,
        neighbors(p).no_duplicates(),
        forall|i: int| 0 <= i < 8 ==> adjacent(p, #[trigger] neighbors(p)[i]),
{
}

/// Every position adjacent to `p` is in its neighbourhood.
pub proof fn lemma_adjacent_in_neighbors(p: GridPos, q: GridPos) -> (i: int)
    requires
        has_neighbors(p),
        adjacent(p, q),
    ensures
        0 <= i < 8,
        neighbors(p)[i] == q,
{
    let dx = q.x - p.x;
    let dy = q.y - p.y;
    if dx == 0 && dy == 1 {
        0
    } else if dx == 0 && dy == -1 {
        1
    } else if dx == -1 && dy == 0 {
        2
    } else if dx == 1 && dy == 0 {
        3
    } else if dx == -1 && dy == 1 {
        4
    } else if dx == 1 && dy == 1 {
        5
    } else if dx == -1 && dy == -1 {
        6
    } else {
        7
    }
}

impl GridPos {
    pub fn new(x: i32, y: i32) -> (r: GridPos)
        ensures
            r.x == x,
            r.y == y,
    {
        GridPos { x, y }
    }
}

/// Relies on sark_grids' `GridPoint::adj_8`: the eight neighbours of `p` in
/// the order of its `DIR_8` table, each found by an `i32` addition.
#[verifier::external_body]
pub(crate) fn adj_8(p: GridPos) -> (r: [GridPos; 8])
    requires
        has_neighbors(p),
    ensures
        r@ == neighbors(p),
{
    let mut out = [p; 8];
    for (slot, q) in out.iter_mut().zip([p.x, p.y].adj_8()) {
        *slot = GridPos { x: q.x, y: q.y };
    }
    out
}

/// Relies on sark_grids' `GridPoint::taxi_dist`: the sum of the absolute
/// coordinate differences, computed in `i32`.
#[verifier::external_body]
pub(crate) fn taxi_dist(a: GridPos, b: GridPos) -> (r: usize)
    requires
        taxicab(a, b) <= i32::MAX,
    ensures
        r == taxicab(a, b),
{
    [a.x, a.y].taxi_dist([b.x, b.y])
}

} // verus!
