use buddhabrot::args::{Algorithm, Args, RenderStyle};
use buddhabrot::point_renderer::{
    select_point_renderer, BinaryPointRenderer, BuddhebrotPointRenderer, LayeredPointRenderer, PointRenderer,
};
use buddhabrot::trace::TraceStatus;

fn args(style: RenderStyle, start: usize, stop: usize) -> Args {
    Args {
        render_type: style,
        view_width: 10,
        view_height: 10,
        algorithm: Algorithm::Random,
        thread_num: 0,
        point_sample: 0,
        point_target: 1,
        batch_size: 10,
        range_start: start,
        range_stop: stop,
    }
}

#[test]
fn binary_records_escaping_starts_once() {
    let r = BinaryPointRenderer::new();
    let mut coords = vec![];
    r.render(&mut coords, TraceStatus::Outside, &[Some((3, 4)), Some((5, 5))]);
    r.render(&mut coords, TraceStatus::Inside, &[Some((1, 1))]);
    r.render(&mut coords, TraceStatus::Outside, &[None, Some((5, 5))]);
    assert_eq!(coords, vec![(3, 4, 1)]);
}

#[test]
fn layered_values_the_start_by_orbit_length() {
    let r = LayeredPointRenderer::new();
    let mut coords = vec![];
    r.render(&mut coords, TraceStatus::Outside, &[Some((2, 0)), None, None, Some((1, 1))]);
    r.render(&mut coords, TraceStatus::NotDone, &[Some((2, 0))]);
    assert_eq!(coords, vec![(2, 0, 3)]);
}

#[test]
fn buddhabrot_records_whole_orbits_in_range() {
    let r = BuddhebrotPointRenderer::new(&args(RenderStyle::Buddhabrot, 1, 3));
    let mut coords = vec![(9, 9, 9)];
    r.render(&mut coords, TraceStatus::Outside, &[Some((0, 0)), None, Some((2, 1))]);
    // Length 3 is out of range, length 0 too.
    r.render(&mut coords, TraceStatus::Outside, &[Some((0, 0)), None, Some((2, 1)), Some((3, 3))]);
    r.render(&mut coords, TraceStatus::Outside, &[Some((4, 4))]);
    r.render(&mut coords, TraceStatus::Inside, &[Some((0, 0)), Some((1, 1))]);
    assert_eq!(coords, vec![(9, 9, 9), (0, 0, 1), (2, 1, 1)]);
}

#[test]
fn selected_renderer_follows_the_style() {
    let cells = [Some((1, 2)), Some((3, 4))];
    let mut coords = vec![];
    select_point_renderer(&args(RenderStyle::Binary, 0, 5)).render(&mut coords, TraceStatus::Outside, &cells);
    select_point_renderer(&args(RenderStyle::Layered, 0, 5)).render(&mut coords, TraceStatus::Outside, &cells);
    select_point_renderer(&args(RenderStyle::Buddhabrot, 0, 5)).render(&mut coords, TraceStatus::Outside, &cells);
    assert_eq!(coords, vec![(1, 2, 1), (1, 2, 1), (1, 2, 1), (3, 4, 1)]);
}
