//! Integer core of a Buddhabrot renderer: the Mersenne Twister that draws the
//! sample points, the counting canvas, batches of hits, traces of orbits and
//! the scheduling decisions of the point finders and checkers.

pub mod rng;
pub mod slate;
pub mod drum;
pub mod complex_literal;
pub mod trace;
pub mod batch;
pub mod args;
pub mod point_renderer;
pub mod points_finder;
pub mod view;
