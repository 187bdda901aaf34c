//! The obstacle and terrain maps share this interface, so that a search
//! can run on either.
use crate::grid_pos::{adjacent, has_neighbors, lemma_neighbors, neighbors, taxicab, GridPos};
use crate::storage::exits_of;
use arrayvec::ArrayVec;
use vstd::prelude::*;

verus! {

/// The neighbours of `p`, in neighbourhood order, for which `open` holds.
pub open spec fn exits_where(p: GridPos, open: spec_fn(GridPos) -> bool) -> Seq<GridPos> {
    neighbors(p).filter(open)
}

/// What a grid-like map offers a pathfinder: where one may move from a
/// position, what a move costs, and a distance heuristic.
pub trait PathMap {
    /// The exits of `p`, in order.
    spec fn spec_exits(&self, p: GridPos) -> Seq<GridPos>;

    /// Whether the cost of the move from `a` to `b` may be asked for.
    spec fn spec_cost_defined(&self, a: GridPos, b: GridPos) -> bool;

    /// The cost of the move from `a` to `b`.
    spec fn spec_cost(&self, a: GridPos, b: GridPos) -> int;

    /// The valid exits from `p`, in a fixed neighbourhood order.
    fn exits(&self, p: GridPos) -> (r: ArrayVec<GridPos, 8>)
        requires
            has_neighbors(p),
        ensures
            exits_of(r) == self.spec_exits(p),
    ;

    /// The cost of moving from `a` to `b`.
    fn cost(&self, a: GridPos, b: GridPos) -> (r: i32)
        requires
            self.spec_cost_defined(a, b),
        ensures
            r == self.spec_cost(a, b),
    ;

    /// The taxicab distance between `a` and `b`.
    fn distance(&self, a: GridPos, b: GridPos) -> (r: usize)
        requires
            taxicab(a, b) <= i32::MAX,
        ensures
            r == taxicab(a, b),
    ;
}

/// One more step of a filtered prefix.
pub(crate) proof fn lemma_filter_take_step(s: Seq<GridPos>, open: spec_fn(GridPos) -> bool, i: int)
    requires
        0 <= i < s.len(),
    ensures
        s.take(i + 1).filter(open) == (if open(s[i]) {
            s.take(i).filter(open).push(s[i])
        } else {
            s.take(i).filter(open)
        }),
        s.take(i).filter(open).len() <= i,
{
    reveal(Seq::filter);
    assert(s.take(i + 1).drop_last() =~= s.take(i));
    s.take(i).lemma_filter_len(open);
}

proof fn lemma_filter_no_duplicates(s: Seq<GridPos>, open: spec_fn(GridPos) -> bool)
    requires
        s.no_duplicates(),
    ensures
        s.filter(open).no_duplicates(),
    decreases s.len(),
{
    reveal(Seq::filter);
    if s.len() > 0 {
        let rest = s.drop_last();
        assert(rest.no_duplicates());
        lemma_filter_no_duplicates(rest, open);
        if rest.filter(open).contains(s.last()) {
            rest.lemma_filter_contains_rev(open, s.last());
        }
    }
}

/// The exits of a position are at most eight distinct positions, each
/// adjacent to it and each one for which `open` holds.
pub proof fn lemma_exits_where(p: GridPos, open: spec_fn(GridPos) -> bool)
    requires
        has_neighbors(p),
    ensures
        exits_where(p, open).len() <= 8,
        exits_where(p, open).no_duplicates(),
        forall|i: int|
            0 <= i < exits_where(p, open).len() ==> {
                let q = #[trigger] exits_where(p, open)[i];
                open(q) && adjacent(p, q) && q != p
            },
{
    lemma_neighbors(p);
    let r = exits_where(p, open);
    neighbors(p).lemma_filter_len(open);
    lemma_filter_no_duplicates(neighbors(p), open);
    assert forall|i: int| 0 <= i < r.len() implies open(r[i]) && adjacent(p, r[i]) by {
        neighbors(p).lemma_filter_pred(open, i);
        assert(r.contains(r[i]));
        neighbors(p).lemma_filter_contains_rev(open, r[i]);
    }
}

} // verus!
