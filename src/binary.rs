//! A map of obstacle flags with a uniform move cost.
use crate::grid_pos::{
    adj_8, adjacent, has_neighbors, key, lemma_adjacent_in_neighbors, neighbors, taxi_dist,
    GridPos,
};
use crate::path_map::{exits_where, lemma_exits_where, lemma_filter_take_step, PathMap};
use crate::storage::{
    exits_of, fits_grid, flag_at, flags_filled, flags_in_bounds, flags_of, in_rect, no_exits,
    push_exit, set_flag,
};
use arrayvec::ArrayVec;
use sark_grids::Grid;
use vstd::prelude::*;

verus! {

/// Whether a move may end at `q` on a map of obstacle flags `m`: `q` lies
/// in the map and is not an obstacle.
pub open spec fn flag_open(m: Map<(int, int), bool>, q: GridPos) -> bool {
    m.dom().contains(key(q)) && !m[key(q)]
}

/// The exits of `p` on a map of obstacle flags `m`.
pub open spec fn flag_exits(m: Map<(int, int), bool>, p: GridPos) -> Seq<GridPos> {
    exits_where(p, |q: GridPos| flag_open(m, q))
}

/// The exits of an in-range position are at most eight distinct positions,
/// each adjacent to it, inside the map and not an obstacle.
pub proof fn lemma_flag_exits(m: Map<(int, int), bool>, p: GridPos)
    requires
        has_neighbors(p),
    ensures
        flag_exits(m, p).len() <= 8,
        flag_exits(m, p).no_duplicates(),
        forall|i: int|
            0 <= i < flag_exits(m, p).len() ==> {
                let q = #[trigger] flag_exits(m, p)[i];
                &&& m.dom().contains(key(q))
                &&& !m[key(q)]
                &&& adjacent(p, q)
                &&& q != p
            },
{
    lemma_exits_where(p, |q: GridPos| flag_open(m, q));
}

/// Making a neighbour of `p` an obstacle takes it out of the exits of `p`;
/// clearing it puts it back, and clearing an obstacle that was just set
/// gives back the exits from before.
pub proof fn lemma_toggle_obstacle(m: Map<(int, int), bool>, p: GridPos, q: GridPos)
    requires
        has_neighbors(p),
        adjacent(p, q),
        m.dom().contains(key(q)),
    ensures
        !flag_exits(m.insert(key(q), true), p).contains(q),
        flag_exits(m.insert(key(q), false), p).contains(q),
        !m[key(q)] ==> flag_exits(m.insert(key(q), true).insert(key(q), false), p) == flag_exits(m, p),
{
    let blocked = m.insert(key(q), true);
    let cleared = m.insert(key(q), false);
    let i = lemma_adjacent_in_neighbors(p, q);
    if flag_exits(blocked, p).contains(q) {
        let j = choose|j: int| 0 <= j < flag_exits(blocked, p).len() && flag_exits(blocked, p)[j] == q;
        lemma_flag_exits(blocked, p);
        assert(flag_exits(blocked, p)[j] == q);
    }
    neighbors(p).lemma_filter_contains(|r: GridPos| flag_open(cleared, r), i);
    if !m[key(q)] {
        assert(blocked.insert(key(q), false) =~= m);
    }
}

/// Every move onto an exit costs one.
pub proof fn lemma_unit_cost(map: &PathMap2d, a: GridPos, b: GridPos)
    requires
        flag_exits(map@, a).contains(b),
    ensures
        map.spec_cost_defined(a, b),
        map.spec_cost(a, b) == 1,
{
}

/// A map of obstacle flags; a position is an obstacle where its flag is
/// `true`.
pub struct PathMap2d {
    grid: Grid<bool>,
}

impl View for PathMap2d {
    type V = Map<(int, int), bool>;

    /// The flag at each position of the map.
    closed spec fn view(&self) -> Map<(int, int), bool> {
        flags_of(self.grid)
    }
}

impl PathMap2d {
    /// A map of `size[0]` columns and `size[1]` rows with no obstacles.
    pub fn new(size: [u32; 2]) -> (r: PathMap2d)
        requires
            fits_grid(size),
        ensures
            r@ == Map::new(|k: (int, int)| in_rect(size@[0], size@[1], k), |k: (int, int)| false),
    {
        PathMap2d { grid: flags_filled(false, size) }
    }

    /// Whether `p` is an obstacle.
    pub fn is_obstacle(&self, p: GridPos) -> (r: bool)
        requires
            self@.dom().contains(key(p)),
        ensures
            r == self@[key(p)],
    {
        flag_at(&self.grid, p)
    }

    /// Makes `p` an obstacle or clears it.
    pub fn set_obstacle(&mut self, p: GridPos, v: bool)
        requires
            old(self)@.dom().contains(key(p)),
        ensures
            final(self)@ == old(self)@.insert(key(p), v),
    {
        set_flag(&mut self.grid, p, v);
    }
}

impl PathMap for PathMap2d {
    open spec fn spec_exits(&self, p: GridPos) -> Seq<GridPos> {
        flag_exits(self@, p)
    }

    /// Any move may be costed.
    open spec fn spec_cost_defined(&self, a: GridPos, b: GridPos) -> bool {
        true
    }

    /// Every move costs one.
    open spec fn spec_cost(&self, a: GridPos, b: GridPos) -> int {
        1
    }

    fn exits(&self, p: GridPos) -> (r: ArrayVec<GridPos, 8>) {
        let ghost open = |q: GridPos| flag_open(self@, q);
        let adj = adj_8(p);
        let mut points = no_exits();
        let mut i: usize = 0;
        while i < 8
            invariant
                i <= 8,
                adj@ == neighbors(p),
                open == (|q: GridPos| flag_open(self@, q)),
                exits_of(points) == neighbors(p).take(i as int).filter(open),
            decreases 8 - i,
        {
            let q = adj[i];
            proof {
                lemma_filter_take_step(neighbors(p), open, i as int);
                assert(q == neighbors(p)[i as int]);
            }
            if flags_in_bounds(&self.grid, q) {
                if !flag_at(&self.grid, q) {
                    push_exit(&mut points, q);
                }
            }
            i += 1;
        }
        assert(neighbors(p).take(8) =~= neighbors(p));
        points
    }

    fn cost(&self, a: GridPos, b: GridPos) -> (r: i32) {
        1
    }

    fn distance(&self, a: GridPos, b: GridPos) -> (r: usize) {
        taxi_dist(a, b)
    }
}

} // verus!
