use sark_pathfinding::{GridCell, GridPos, PathMap, PathMap2DWeighted, PathMap2d};

fn pos(x: i32, y: i32) -> GridPos {
    GridPos::new(x, y)
}

fn is_adjacent(p: GridPos, q: GridPos) -> bool {
    q != p && (q.x - p.x).abs() <= 1 && (q.y - p.y).abs() <= 1
}

fn assert_exit_shape(exits: &[GridPos], p: GridPos, w: i32, h: i32) {
    assert!(exits.len() <= 8);
    for (i, q) in exits.iter().enumerate() {
        assert!(is_adjacent(p, *q));
        assert!(q.x >= 0 && q.x < w && q.y >= 0 && q.y < h);
        for r in &exits[i + 1..] {
            assert_ne!(q, r);
        }
    }
}

#[test]
fn binary_exits_are_distinct_in_bounds_neighbours() {
    let map = PathMap2d::new([5, 5]);
    for x in 0..5 {
        for y in 0..5 {
            let p = pos(x, y);
            let exits = map.exits(p);
            assert_exit_shape(&exits, p, 5, 5);
        }
    }
    assert_eq!(map.exits(pos(0, 0)).len(), 3);
    assert_eq!(map.exits(pos(0, 2)).len(), 5);
    assert_eq!(map.exits(pos(2, 2)).len(), 8);
}

#[test]
fn weighted_exits_are_distinct_in_bounds_neighbours() {
    let mut map = PathMap2DWeighted::new([4, 3]);
    map.set_obstacle(pos(1, 1), GridCell::Weighted(7));
    for x in 0..4 {
        for y in 0..3 {
            let p = pos(x, y);
            let exits = map.exits(p);
            assert_exit_shape(&exits, p, 4, 3);
        }
    }
    assert_eq!(map.exits(pos(3, 2)).len(), 3);
    assert_eq!(map.exits(pos(1, 1)).len(), 8);
}

#[test]
fn exits_follow_neighbourhood_order() {
    let map = PathMap2d::new([5, 5]);
    let exits = map.exits(pos(2, 2));
    let expected = [
        pos(2, 3),
        pos(2, 1),
        pos(1, 2),
        pos(3, 2),
        pos(1, 3),
        pos(3, 3),
        pos(1, 1),
        pos(3, 1),
    ];
    assert_eq!(exits.as_slice(), &expected[..]);
}

#[test]
fn binary_toggling_obstacle_removes_and_restores_exit() {
    let mut map = PathMap2d::new([5, 5]);
    let p = pos(2, 2);
    let q = pos(3, 3);
    assert!(map.exits(p).contains(&q));
    map.set_obstacle(q, true);
    assert!(map.is_obstacle(q));
    let exits = map.exits(p);
    assert!(!exits.contains(&q));
    assert_eq!(exits.len(), 7);
    map.set_obstacle(q, false);
    assert!(!map.is_obstacle(q));
    let exits = map.exits(p);
    assert!(exits.contains(&q));
    assert_eq!(exits.len(), 8);
}

#[test]
fn binary_exits_skip_every_obstacle() {
    let mut map = PathMap2d::new([3, 3]);
    for x in 0..3 {
        for y in 0..3 {
            if (x + y) % 2 == 0 {
                map.set_obstacle(pos(x, y), true);
            }
        }
    }
    let exits = map.exits(pos(1, 1));
    assert_eq!(exits.as_slice(), &[pos(1, 2), pos(1, 0), pos(0, 1), pos(2, 1)][..]);
    for q in exits.iter() {
        assert!(!map.is_obstacle(*q));
    }
}

#[test]
fn binary_cost_is_one_for_every_exit() {
    let mut map = PathMap2d::new([4, 4]);
    map.set_obstacle(pos(1, 2), true);
    for x in 0..4 {
        for y in 0..4 {
            let a = pos(x, y);
            for b in map.exits(a) {
                assert_eq!(map.cost(a, b), 1);
            }
        }
    }
}

#[test]
fn weighted_blocking_removes_and_restores_exit() {
    let mut map = PathMap2DWeighted::new([5, 5]);
    let p = pos(2, 2);
    let q = pos(1, 2);
    assert!(map.exits(p).contains(&q));
    map.set_obstacle(q, GridCell::Blocked);
    assert_eq!(map.is_obstacle(q), GridCell::Blocked);
    assert!(!map.exits(p).contains(&q));
    assert_eq!(map.exits(p).len(), 7);
    map.set_obstacle(q, GridCell::Weighted(4));
    assert!(map.exits(p).contains(&q));
    map.set_obstacle(q, GridCell::Blocked);
    assert!(!map.exits(p).contains(&q));
    map.set_obstacle(q, GridCell::NonWeighted);
    assert!(map.exits(p).contains(&q));
    assert_eq!(map.exits(p).len(), 8);
}

#[test]
fn weighted_cost_table() {
    let mut map = PathMap2DWeighted::new([10, 10]);
    let a = pos(4, 4);
    let b = pos(5, 4);
    map.set_obstacle(a, GridCell::Weighted(3));
    map.set_obstacle(b, GridCell::Weighted(5));
    assert_eq!(map.cost(a, b), 8);
    map.set_obstacle(b, GridCell::NonWeighted);
    assert_eq!(map.cost(a, b), 4);
    assert_eq!(map.cost(b, a), 4);
    map.set_obstacle(a, GridCell::NonWeighted);
    assert_eq!(map.cost(a, b), 2);
}

#[test]
fn weighted_cost_with_blocked_end() {
    let mut map = PathMap2DWeighted::new([3, 3]);
    map.set_obstacle(pos(0, 0), GridCell::Weighted(3));
    map.set_obstacle(pos(1, 0), GridCell::Blocked);
    map.set_obstacle(pos(2, 0), GridCell::Blocked);
    assert_eq!(map.cost(pos(0, 0), pos(1, 0)), 4);
    assert_eq!(map.cost(pos(1, 0), pos(0, 0)), 4);
    assert_eq!(map.cost(pos(1, 0), pos(2, 0)), 2);
    assert_eq!(map.cost(pos(1, 0), pos(1, 1)), 2);
}

#[test]
fn distance_is_symmetric_taxicab() {
    let map = PathMap2d::new([10, 10]);
    assert_eq!(map.distance(pos(0, 0), pos(3, 4)), 7);
    assert_eq!(map.distance(pos(3, 4), pos(0, 0)), 7);
    assert_eq!(map.distance(pos(6, 2), pos(6, 2)), 0);
    assert_eq!(map.distance(pos(9, 0), pos(0, 9)), 18);
    let weighted = PathMap2DWeighted::new([10, 10]);
    assert_eq!(weighted.distance(pos(0, 0), pos(3, 4)), 7);
    assert_eq!(weighted.distance(pos(3, 4), pos(0, 0)), 7);
    assert_eq!(weighted.distance(pos(5, 5), pos(5, 5)), 0);
    for (a, b) in [(pos(1, 8), pos(7, 2)), (pos(0, 3), pos(9, 3))] {
        assert_eq!(map.distance(a, b), map.distance(b, a));
    }
}

#[test]
fn new_maps_start_at_default() {
    let map = PathMap2d::new([50, 50]);
    let weighted = PathMap2DWeighted::new([50, 50]);
    for x in 0..50 {
        for y in 0..50 {
            assert!(!map.is_obstacle(pos(x, y)));
            assert_eq!(weighted.is_obstacle(pos(x, y)), GridCell::NonWeighted);
        }
    }
    assert_eq!(GridCell::default(), GridCell::NonWeighted);
}

#[test]
fn new_map_bounds_follow_size() {
    let map = PathMap2d::new([3, 2]);
    let exits = map.exits(pos(2, 1));
    assert_eq!(exits.as_slice(), &[pos(2, 0), pos(1, 1), pos(1, 0)][..]);
    let empty = PathMap2DWeighted::new([0, 4]);
    assert_eq!(empty.exits(pos(0, 0)).len(), 0);
}

#[test]
fn end_to_end_obstacle_excluded_from_exits() {
    let mut map = PathMap2d::new([5, 5]);
    map.set_obstacle(pos(2, 2), true);
    let exits = map.exits(pos(1, 1));
    assert!(!exits.contains(&pos(2, 2)));
    assert_eq!(exits.len(), 7);
    for q in [pos(1, 2), pos(1, 0), pos(0, 1), pos(2, 1), pos(0, 2), pos(0, 0), pos(2, 0)] {
        assert!(exits.contains(&q));
    }
}
