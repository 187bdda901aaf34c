//! A map of terrain cells whose move cost depends on both ends of a move.
use crate::grid_pos::{
    adj_8, adjacent, has_neighbors, key, lemma_adjacent_in_neighbors, neighbors, taxi_dist,
    GridPos,
};
use crate::path_map::{exits_where, lemma_exits_where, lemma_filter_take_step, PathMap};
use crate::storage::{
    exits_of, fits_grid, in_rect, no_exits, push_exit, set_terrain, terrain_at, terrain_filled,
    terrain_in_bounds, terrain_of,
};
use arrayvec::ArrayVec;
use sark_grids::Grid;
use vstd::prelude::*;

verus! {

/// The terrain of one cell of a weighted map.
#[derive(Clone, Copy, Debug, Default, PartialEq, Eq, Structural)]
pub enum GridCell {
    /// Passable, at the given cost.
    Weighted(i32),
    /// Impassable.
    Blocked,
    /// Passable, at the baseline cost.
    #[default]
    NonWeighted,
}

/// The cost of a move between cells of terrain `c1` and `c2`: each weighted
/// end adds its weight; an unweighted end adds one when the other end is
/// weighted, and two unweighted ends cost two.
pub open spec fn pair_cost(c1: GridCell, c2: GridCell) -> int {
    match c1 {
        GridCell::Weighted(v1) => match c2 {
            GridCell::Weighted(v2) => v1 + v2,
            _ => v1 + 1,
        },
        _ => match c2 {
            GridCell::Weighted(v2) => v2 + 1,
            _ => 2,
        },
    }
}

/// Whether a move may end at `q` on a terrain map `m`: `q` lies in the map
/// and is not blocked.
pub open spec fn terrain_open(m: Map<(int, int), GridCell>, q: GridPos) -> bool {
    m.dom().contains(key(q)) && m[key(q)] != GridCell::Blocked
}

/// The exits of `p` on a terrain map `m`.
pub open spec fn terrain_exits(m: Map<(int, int), GridCell>, p: GridPos) -> Seq<GridPos> {
    exits_where(p, |q: GridPos| terrain_open(m, q))
}

/// The cost of a move does not depend on its direction.
pub proof fn lemma_pair_cost_symmetric(c1: GridCell, c2: GridCell)
    ensures
        pair_cost(c1, c2) == pair_cost(c2, c1),
{
}

/// The exits of an in-range position are at most eight distinct positions,
/// each adjacent to it, inside the map and not blocked.
pub proof fn lemma_terrain_exits(m: Map<(int, int), GridCell>, p: GridPos)
    requires
        has_neighbors(p),
    ensures
        terrain_exits(m, p).len() <= 8,
        terrain_exits(m, p).no_duplicates(),
        forall|i: int|
            0 <= i < terrain_exits(m, p).len() ==> {
                let q = #[trigger] terrain_exits(m, p)[i];
                &&& m.dom().contains(key(q))
                &&& m[key(q)] != GridCell::Blocked
                &&& adjacent(p, q)
                &&& q != p
            },
{
    lemma_exits_where(p, |q: GridPos| terrain_open(m, q));
}

/// Blocking a neighbour of `p` takes it out of the exits of `p`; making it
/// passable again, weighted or not, puts it back.
pub proof fn lemma_toggle_blocked(m: Map<(int, int), GridCell>, p: GridPos, q: GridPos, c: GridCell)
    requires
        has_neighbors(p),
        adjacent(p, q),
        m.dom().contains(key(q)),
        c != GridCell::Blocked,
    ensures
        !terrain_exits(m.insert(key(q), GridCell::Blocked), p).contains(q),
        terrain_exits(m.insert(key(q), c), p).contains(q),
{
    let blocked = m.insert(key(q), GridCell::Blocked);
    let passable = m.insert(key(q), c);
    let i = lemma_adjacent_in_neighbors(p, q);
    if terrain_exits(blocked, p).contains(q) {
        let j = choose|j: int| 0 <= j < terrain_exits(blocked, p).len() && terrain_exits(blocked, p)[j] == q;
        lemma_terrain_exits(blocked, p);
        assert(terrain_exits(blocked, p)[j] == q);
    }
    neighbors(p).lemma_filter_contains(|r: GridPos| terrain_open(passable, r), i);
}

/// A map of terrain cells.
pub struct PathMap2DWeighted {
    grid: Grid<GridCell>,
}

impl View for PathMap2DWeighted {
    type V = Map<(int, int), GridCell>;

    /// The terrain at each position of the map.
    closed spec fn view(&self) -> Map<(int, int), GridCell> {
        terrain_of(self.grid)
    }
}

impl PathMap2DWeighted {
    /// A map of `size[0]` columns and `size[1]` rows, every cell unweighted.
    pub fn new(size: [u32; 2]) -> (r: PathMap2DWeighted)
        requires
            fits_grid(size),
        ensures
            r@ == Map::new(
                |k: (int, int)| in_rect(size@[0], size@[1], k),
                |k: (int, int)| GridCell::NonWeighted,
            ),
    {
        PathMap2DWeighted { grid: terrain_filled(GridCell::NonWeighted, size) }
    }

    /// The terrain at `p`.
    pub fn is_obstacle(&self, p: GridPos) -> (r: GridCell)
        requires
            self@.dom().contains(key(p)),
        ensures
            r == self@[key(p)],
    {
        terrain_at(&self.grid, p)
    }

    /// Sets the terrain at `p`.
    pub fn set_obstacle(&mut self, p: GridPos, v: GridCell)
        requires
            old(self)@.dom().contains(key(p)),
        ensures
            final(self)@ == old(self)@.insert(key(p), v),
    {
        set_terrain(&mut self.grid, p, v);
    }
}

impl PathMap for PathMap2DWeighted {
    open spec fn spec_exits(&self, p: GridPos) -> Seq<GridPos> {
        terrain_exits(self@, p)
    }

    /// Both ends lie in the map and the cost fits in an `i32`.
    open spec fn spec_cost_defined(&self, a: GridPos, b: GridPos) -> bool {
        &&& self@.dom().contains(key(a))
        &&& self@.dom().contains(key(b))
        &&& i32::MIN <= pair_cost(self@[key(a)], self@[key(b)]) <= i32::MAX
    }

    open spec fn spec_cost(&self, a: GridPos, b: GridPos) -> int {
        pair_cost(self@[key(a)], self@[key(b)])
    }

    fn exits(&self, p: GridPos) -> (r: ArrayVec<GridPos, 8>) {
        let ghost open = |q: GridPos| terrain_open(self@, q);
        let adj = adj_8(p);
        let mut points = no_exits();
        let mut i: usize = 0;
        while i < 8
            invariant
                i <= 8,
                adj@ == neighbors(p),
                open == (|q: GridPos| terrain_open(self@, q)),
                exits_of(points) == neighbors(p).take(i as int).filter(open),
            decreases 8 - i,
        {
            let q = adj[i];
            proof {
                lemma_filter_take_step(neighbors(p), open, i as int);
                assert(q == neighbors(p)[i as int]);
            }
            if terrain_in_bounds(&self.grid, q) {
                match terrain_at(&self.grid, q) {
                    GridCell::Blocked => {},
                    _ => push_exit(&mut points, q),
                }
            }
            i += 1;
        }
        assert(neighbors(p).take(8) =~= neighbors(p));
        points
    }

    fn cost(&self, a: GridPos, b: GridPos) -> (r: i32) {
        let c1 = terrain_at(&self.grid, a);
        let c2 = terrain_at(&self.grid, b);
        match (c1, c2) {
            (GridCell::Weighted(v1), GridCell::Weighted(v2)) => v1 + v2,
            (GridCell::Weighted(v), _) => v + 1,
            (_, GridCell::Weighted(v)) => v + 1,
            _ => 2,
        }
    }

    fn distance(&self, a: GridPos, b: GridPos) -> (r: usize) {
        taxi_dist(a, b)
    }
}

} // verus!
