//! Grid maps that a pathfinder searches: neighbour enumeration, move cost and
//! a distance heuristic over a fixed-size 2d grid.

pub mod binary;
pub mod grid_pos;
pub mod path_map;
pub mod storage;
pub mod weighted;

pub use binary::PathMap2d;
pub use grid_pos::GridPos;
pub use path_map::PathMap;
pub use weighted::{GridCell, PathMap2DWeighted};
