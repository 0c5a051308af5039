//! Adaptive grid lines for a view window of the plane: bounds snap to a power-of-two coarse
//! grid, each line is sampled on a finer grid, and the points come out as a lazy stream
//! together with the line lengths that cut it into polylines.

pub mod snap;
pub mod grid;
pub mod cursor;
pub mod simple;
pub mod laws;
