use buddhabrot::args::{worker_threads, Algorithm, Args, RenderStyle};
use buddhabrot::batch::Batch;
use buddhabrot::drum::{Drum, LaneAction};
use buddhabrot::points_finder::{scan_pixel, RandomPointFinder, RandomStep, ScanPointFinder, ScanStep};
use buddhabrot::slate::Slate;

fn args(width: i32, height: i32, sample: usize, target: usize, batch: usize) -> Args {
    Args {
        render_type: RenderStyle::Buddhabrot,
        view_width: width,
        view_height: height,
        algorithm: Algorithm::Random,
        thread_num: 1,
        point_sample: sample,
        point_target: target,
        batch_size: batch,
        range_start: 10,
        range_stop: 20,
    }
}

#[test]
fn drum_loads_the_first_lanes() {
    let drum = Drum::new(20, 3, 20);
    assert!(drum.any_loaded());
    let loaded: Vec<bool> = (0..8).map(|i| drum.is_loaded(i)).collect();
    assert_eq!(loaded, vec![true, true, true, false, false, false, false, false]);
    let empty = Drum::new(20, 0, 20);
    assert!(!empty.any_loaded());
}

#[test]
fn drum_reloads_until_the_limit_then_unloads() {
    // Eight traces count as started; two more may start.
    let mut drum = Drum::new(100, 8, 10);
    let escaped = [true, false, true, false, true, false, false, false];
    let actions = drum.end_round(escaped);
    assert_eq!(actions[0], LaneAction::Reload);
    assert_eq!(actions[1], LaneAction::Continue);
    assert_eq!(actions[2], LaneAction::Reload);
    assert_eq!(actions[4], LaneAction::Unload);
    assert!(drum.is_loaded(0));
    assert!(!drum.is_loaded(4));
    let actions = drum.end_round([true; 8]);
    assert_eq!(actions, [LaneAction::Unload; 8]);
    assert!(!drum.any_loaded());
}

#[test]
fn drum_finishes_loaded_lanes_at_the_round_limit() {
    let mut drum = Drum::new(2, 1, 0);
    let first = drum.end_round([false; 8]);
    assert_eq!(first, [LaneAction::Continue; 8]);
    let second = drum.end_round([false; 8]);
    assert_eq!(second[0], LaneAction::Unload);
    assert_eq!(second[1], LaneAction::Continue);
    assert!(!drum.any_loaded());
}

#[test]
fn random_finder_samples_a_fixed_number_of_rounds() {
    // 250 points in batches of 100: 3 rounds, with 2 batches in flight.
    let mut finder = RandomPointFinder::new(&args(4, 4, 250, 0, 100), 2);
    let mut steps = vec![];
    loop {
        let step = finder.next_step();
        steps.push(step);
        if step == RandomStep::Finish {
            break;
        }
    }
    assert_eq!(
        steps,
        vec![
            RandomStep::SendNew,
            RandomStep::SendNew,
            RandomStep::Recycle,
            RandomStep::Recycle,
            RandomStep::Recycle,
            RandomStep::Collect,
            RandomStep::Collect,
            RandomStep::Finish,
        ]
    );
}

#[test]
fn random_finder_seeks_a_target() {
    let mut finder = RandomPointFinder::new(&args(4, 4, 0, 3, 10), 1);
    let mut slate = Slate::from_view(4, 4);
    assert_eq!(finder.next_step(), RandomStep::SendNew);
    assert_eq!(finder.next_step(), RandomStep::Recycle);
    let mut batch = Batch::new(20, 10);
    batch.coords.push((1, 1, 1));
    batch.coords.push((2, 1, 1));
    finder.handle_completed_batch(&mut slate, &batch);
    assert_eq!(finder.good_points(), 2);
    assert_eq!(finder.next_step(), RandomStep::Recycle);
    finder.handle_completed_batch(&mut slate, &batch);
    assert_eq!(finder.good_points(), 4);
    assert_eq!(slate.max(), 2);
    assert_eq!(finder.next_step(), RandomStep::Collect);
    assert_eq!(finder.next_step(), RandomStep::Finish);
    assert_eq!(finder.next_step(), RandomStep::Finish);
}

#[test]
fn scan_finder_hands_out_every_pixel_once() {
    // 3 x 3 = 9 pixels in batches of 4, with 2 batches in flight.
    let mut finder = ScanPointFinder::new(&args(3, 3, 0, 0, 4), 2);
    assert_eq!(finder.next_step(), ScanStep::SendNew(0));
    assert_eq!(finder.next_step(), ScanStep::SendNew(4));
    assert_eq!(finder.next_step(), ScanStep::Recycle(8));
    assert_eq!(finder.next_step(), ScanStep::Drain);
    assert_eq!(finder.next_step(), ScanStep::Drain);
}

#[test]
fn scan_finder_stops_loading_when_the_view_is_covered() {
    let mut finder = ScanPointFinder::new(&args(2, 2, 0, 0, 10), 3);
    assert_eq!(finder.next_step(), ScanStep::SendNew(0));
    assert_eq!(finder.next_step(), ScanStep::Drain);
}

#[test]
fn scan_pixels_go_row_after_row() {
    assert_eq!(scan_pixel(0, 3), (0, 0));
    assert_eq!(scan_pixel(2, 3), (2, 0));
    assert_eq!(scan_pixel(7, 3), (1, 2));
    assert_eq!(scan_pixel(7, -3), (7 % -3, 7 / -3));
    assert_eq!(scan_pixel(7, -3), (1, -2));
}

#[test]
fn scan_batches_count_hits() {
    let mut slate = Slate::from_view(2, 1);
    let mut batch = Batch::new(5, 2);
    batch.coords.push((1, 0, 9));
    ScanPointFinder::handle_completed_batch(&mut slate, &batch);
    assert_eq!(slate.max(), 1);
    assert_eq!(slate.normalized_pixels(), vec![0, 65535]);
}

#[test]
fn worker_threads_default_to_one_per_processor() {
    assert_eq!(worker_threads(0, 12), 12);
    assert_eq!(worker_threads(3, 12), 3);
}
