//! What each rendering style records for a finished orbit.

use vstd::prelude::*;
use crate::args::{Args, RenderStyle};
use crate::batch::Hit;
use crate::trace::TraceStatus;

verus! {

/// The view coordinates of a point, or `None` for a point outside the view.
pub type Cell = Option<(i32, i32)>;

/// A hit valued `value` for each of `cells` that lies in the view, in order.
pub open spec fn cell_hits(cells: Seq<Cell>, value: u16) -> Seq<Hit>
    decreases cells.len(),
{
    if cells.len() == 0 {
        Seq::empty()
    } else {
        cell_hits(cells.drop_last(), value) + match cells.last() {
            Some((x, y)) => seq![(x as u32, y as u32, value)],
            None => Seq::empty(),
        }
    }
}

/// Number of cells in the view among the first `n` of `cells`.
pub open spec fn cells_in_view(cells: Seq<Cell>, n: int) -> nat
    decreases n,
{
    if n <= 0 {
        0
    } else {
        cells_in_view(cells, n - 1) + (if cells[n - 1] is Some { 1nat } else { 0nat })
    }
}

/// The hits of `cells` are one per cell in the view, in the order of the
/// cells, each at its cell's pixel: there are as many hits as cells in the
/// view, and the cell at index `i`, when in the view, gives the hit whose
/// index is the number of cells in the view before it.
pub proof fn lemma_one_hit_per_cell(cells: Seq<Cell>, value: u16)
    ensures
        cell_hits(cells, value).len() == cells_in_view(cells, cells.len() as int),
        forall|i: int|
            0 <= i < cells.len() && #[trigger] cells[i] is Some ==> cell_hits(cells, value)[cells_in_view(
                cells,
                i,
            ) as int] == ((cells[i]->0).0 as u32, (cells[i]->0).1 as u32, value),
    decreases cells.len(),
{
    if cells.len() > 0 {
        let n = cells.len() as int;
        let front = cells.drop_last();
        let h = cell_hits(cells, value);
        let hf = cell_hits(front, value);
        lemma_one_hit_per_cell(front, value);
        lemma_cells_in_view_prefix(cells, front, n - 1);
        assert(h == hf + match cells.last() {
            Some((x, y)) => seq![(x as u32, y as u32, value)],
            None => Seq::<Hit>::empty(),
        });
        assert(hf.len() == cells_in_view(cells, n - 1));
        assert forall|i: int| 0 <= i < n && #[trigger] cells[i] is Some implies h[cells_in_view(cells, i) as int]
            == ((cells[i]->0).0 as u32, (cells[i]->0).1 as u32, value) by {
            if i < n - 1 {
                assert(front[i] == cells[i]);
                lemma_cells_in_view_prefix(cells, front, i);
                lemma_cells_in_view_le(front, i, n - 1);
                assert(h[cells_in_view(cells, i) as int] == hf[cells_in_view(front, i) as int]);
            }
        }
    }
}

proof fn lemma_cells_in_view_prefix(cells: Seq<Cell>, front: Seq<Cell>, n: int)
    requires
        cells.len() > 0,
        front == cells.drop_last(),
        0 <= n <= front.len(),
    ensures
        cells_in_view(cells, n) == cells_in_view(front, n),
    decreases n,
{
    if n > 0 {
        assert(front[n - 1] == cells[n - 1]);
        lemma_cells_in_view_prefix(cells, front, n - 1);
    }
}

proof fn lemma_cells_in_view_le(cells: Seq<Cell>, i: int, n: int)
    requires
        0 <= i < n,
        cells[i] is Some,
    ensures
        cells_in_view(cells, i) < cells_in_view(cells, n),
    decreases n,
{
    if n > i + 1 {
        lemma_cells_in_view_le(cells, i, n - 1);
    }
}

/// Appends to `coords` a hit valued `value` for each of `cells` that lies in the view.
fn push_cells(coords: &mut Vec<Hit>, cells: &[Cell], value: u16)
    ensures
        final(coords)@ == old(coords)@ + cell_hits(cells@, value),
{
    let mut i: usize = 0;
    while i < cells.len()
        invariant
            i <= cells.len(),
            coords@ == old(coords)@ + cell_hits(cells@.take(i as int), value),
        decreases cells.len() - i,
    {
        assert(cells@.take(i + 1).drop_last() =~= cells@.take(i as int));
        if let Some((x, y)) = cells[i] {
            coords.push((x as u32, y as u32, value));
        }
        i += 1;
        assert(coords@ =~= old(coords)@ + cell_hits(cells@.take(i as int), value));
    }
    assert(cells@.take(cells.len() as int) =~= cells@);
}

/// Records the hits of a finished orbit.  The orbit is given by its status
/// and by the view coordinates of its points, its start first.
pub trait PointRenderer {
    /// The hits recorded for an orbit of status `status` whose points lie at `cells`.
    spec fn rendered(&self, status: TraceStatus, cells: Seq<Cell>) -> Seq<Hit>;

    fn render(&self, coords: &mut Vec<Hit>, status: TraceStatus, cells: &[Cell])
        requires
            cells@.len() >= 1,
        ensures
            final(coords)@ == old(coords)@ + self.rendered(status, cells@),
    ;
}

/// Records the start of each escaping orbit, once.
pub struct BinaryPointRenderer {}

impl BinaryPointRenderer {
    pub fn new() -> BinaryPointRenderer {
        BinaryPointRenderer {}
    }
}

impl PointRenderer for BinaryPointRenderer {
    open spec fn rendered(&self, status: TraceStatus, cells: Seq<Cell>) -> Seq<Hit> {
        if status == TraceStatus::Outside {
            cell_hits(cells.take(1), 1)
        } else {
            Seq::empty()
        }
    }

    fn render(&self, coords: &mut Vec<Hit>, status: TraceStatus, cells: &[Cell]) {
        if status == TraceStatus::Outside {
            if let Some((x, y)) = cells[0] {
                coords.push((x as u32, y as u32, 1));
            }
        }
        proof {
            reveal_with_fuel(cell_hits, 2);
            assert(cells@.take(1).drop_last() =~= Seq::<Cell>::empty());
        }
    }
}

/// Records the start of each escaping orbit, valued by the orbit's length
/// (modulo 2^16).
pub struct LayeredPointRenderer {}

impl LayeredPointRenderer {
    pub fn new() -> LayeredPointRenderer {
        LayeredPointRenderer {}
    }
}

impl PointRenderer for LayeredPointRenderer {
    open spec fn rendered(&self, status: TraceStatus, cells: Seq<Cell>) -> Seq<Hit> {
        if status == TraceStatus::Outside {
            cell_hits(cells.take(1), (cells.len() - 1) as u16)
        } else {
            Seq::empty()
        }
    }

    fn render(&self, coords: &mut Vec<Hit>, status: TraceStatus, cells: &[Cell]) {
        if status == TraceStatus::Outside {
            if let Some((x, y)) = cells[0] {
                coords.push((x as u32, y as u32, (cells.len() - 1) as u16));
            }
        }
        proof {
            reveal_with_fuel(cell_hits, 2);
            assert(cells@.take(1).drop_last() =~= Seq::<Cell>::empty());
        }
    }
}

/// Records every point of each escaping orbit whose length lies in
/// `range_start..range_stop`.
pub struct BuddhebrotPointRenderer {
    range_start: usize,
    range_stop: usize,
}

impl BuddhebrotPointRenderer {
    /// The shortest orbit length drawn.
    pub closed spec fn shortest(&self) -> usize {
        self.range_start
    }

    /// One more than the longest orbit length drawn.
    pub closed spec fn longest_excluded(&self) -> usize {
        self.range_stop
    }

    pub fn new(args: &Args) -> (r: BuddhebrotPointRenderer)
        ensures
            r.shortest() == args.range_start,
            r.longest_excluded() == args.range_stop,
    {
        BuddhebrotPointRenderer { range_start: args.range_start, range_stop: args.range_stop }
    }
}

impl PointRenderer for BuddhebrotPointRenderer {
    open spec fn rendered(&self, status: TraceStatus, cells: Seq<Cell>) -> Seq<Hit> {
        if status == TraceStatus::Outside && self.shortest() <= cells.len() - 1 < self.longest_excluded() {
            cell_hits(cells, 1)
        } else {
            Seq::empty()
        }
    }

    fn render(&self, coords: &mut Vec<Hit>, status: TraceStatus, cells: &[Cell]) {
        let len = cells.len() - 1;
        if status == TraceStatus::Outside && self.range_start <= len && len < self.range_stop {
            push_cells(coords, cells, 1);
        } else {
            assert(coords@ =~= old(coords)@ + Seq::<Hit>::empty());
        }
    }
}

/// The hits recorded in style `style` for an orbit of status `status` whose
/// points lie at `cells`, with orbit lengths drawn in `range_start..range_stop`.
pub open spec fn style_rendered(
    style: RenderStyle,
    range_start: usize,
    range_stop: usize,
    status: TraceStatus,
    cells: Seq<Cell>,
) -> Seq<Hit> {
    if status != TraceStatus::Outside {
        Seq::empty()
    } else {
        match style {
            RenderStyle::Binary => cell_hits(cells.take(1), 1),
            RenderStyle::Layered => cell_hits(cells.take(1), (cells.len() - 1) as u16),
            RenderStyle::Buddhabrot => if range_start <= cells.len() - 1 < range_stop {
                cell_hits(cells, 1)
            } else {
                Seq::empty()
            },
        }
    }
}

/// One renderer of each style.
pub enum SelectedRenderer {
    Binary(BinaryPointRenderer),
    Layered(LayeredPointRenderer),
    Buddhabrot(BuddhebrotPointRenderer),
}

impl PointRenderer for SelectedRenderer {
    open spec fn rendered(&self, status: TraceStatus, cells: Seq<Cell>) -> Seq<Hit> {
        match self {
            SelectedRenderer::Binary(r) => r.rendered(status, cells),
            SelectedRenderer::Layered(r) => r.rendered(status, cells),
            SelectedRenderer::Buddhabrot(r) => r.rendered(status, cells),
        }
    }

    fn render(&self, coords: &mut Vec<Hit>, status: TraceStatus, cells: &[Cell]) {
        match self {
            SelectedRenderer::Binary(r) => r.render(coords, status, cells),
            SelectedRenderer::Layered(r) => r.render(coords, status, cells),
            SelectedRenderer::Buddhabrot(r) => r.render(coords, status, cells),
        }
    }
}

/// The renderer of the style that `args` asks for.
pub fn select_point_renderer(args: &Args) -> (r: SelectedRenderer)
    ensures
        forall|status: TraceStatus, cells: Seq<Cell>|
            #[trigger] r.rendered(status, cells) == style_rendered(
                args.render_type,
                args.range_start,
                args.range_stop,
                status,
                cells,
            ),
{
    match args.render_type {
        RenderStyle::Binary => SelectedRenderer::Binary(BinaryPointRenderer::new()),
        RenderStyle::Layered => SelectedRenderer::Layered(LayeredPointRenderer::new()),
        RenderStyle::Buddhabrot => SelectedRenderer::Buddhabrot(BuddhebrotPointRenderer::new(args)),
    }
}

} // verus!
