//! The settings of a render that the library's logic reads.

use vstd::prelude::*;

verus! {

/// What is drawn for each orbit that escapes.
#[derive(Clone, Copy, PartialEq, Eq, Structural, PartialOrd, Ord, Debug)]
pub enum RenderStyle {
    /// The starting point of each escaping orbit, once.
    Binary,
    /// The starting point of each escaping orbit, valued by the orbit's length.
    Layered,
    /// Every point of each escaping orbit whose length lies in the chosen range.
    Buddhabrot,
}

/// How the starting points are chosen.
#[derive(Clone, Copy, PartialEq, Eq, Structural, PartialOrd, Ord, Debug)]
pub enum Algorithm {
    /// Points drawn at random in the square [-2, 2] x [-2, 2].
    Random,
    /// One point per pixel of the view, row after row.
    Scan,
    Tree,
    MetroHast,
}

/// The integer settings of a render; the view's centre, zoom and gamma
/// stay with the caller, which does the floating-point work.
#[derive(Clone, Copy, Debug)]
pub struct Args {
    /// The type of info to render.
    pub render_type: RenderStyle,
    /// Width of the image.
    pub view_width: i32,
    /// Height of the image.
    pub view_height: i32,
    /// The algorithm used to find relevant points.
    pub algorithm: Algorithm,
    /// Number of threads to launch, 0 for one per processor.
    pub thread_num: usize,
    /// For the random algorithm, the number of points to iterate over.
    pub point_sample: usize,
    /// For the random algorithm, the number of points to find.
    pub point_target: usize,
    /// Number of points per batch.
    pub batch_size: usize,
    /// The start of the range of orbit lengths to draw.
    pub range_start: usize,
    /// The end of the range of orbit lengths to draw, and the longest orbit
    /// iterated.
    pub range_stop: usize,
}

/// The number of worker threads for a render: the number asked for, or one
/// per processor when 0 is asked for.
pub fn worker_threads(thread_num: usize, processors: usize) -> (r: usize)
    ensures
        r == if thread_num > 0 { thread_num } else { processors },
{
    if thread_num > 0 { thread_num } else { processors }
}

} // verus!
