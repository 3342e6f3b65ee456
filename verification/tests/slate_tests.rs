use buddhabrot::batch::Batch;
use buddhabrot::slate::Slate;

#[test]
fn blank_slate_has_sizes_and_no_hits() {
    let slate = Slate::from_view(4, 3);
    assert_eq!(slate.x_size(), 4);
    assert_eq!(slate.y_size(), 3);
    assert_eq!(slate.max(), 0);
    assert_eq!(slate.normalized_pixels(), vec![0u16; 12]);
}

#[test]
fn offsets_are_row_major() {
    let slate = Slate::from_view(4, 3);
    assert_eq!(slate.compute_offset(0, 0), 0);
    assert_eq!(slate.compute_offset(3, 0), 3);
    assert_eq!(slate.compute_offset(1, 2), 9);
}

#[test]
fn increments_track_the_maximum() {
    let mut slate = Slate::from_view(2, 2);
    slate.increment(1, 0);
    assert_eq!(slate.max(), 1);
    slate.increment(1, 0);
    slate.increment(0, 1);
    assert_eq!(slate.max(), 2);
    assert_eq!(slate.normalized_pixels(), vec![0, 65535, 32767, 0]);
}

#[test]
fn brightest_pixel_is_white_and_order_is_kept() {
    let mut slate = Slate::from_view(3, 1);
    for _ in 0..3 {
        slate.increment(1, 0);
    }
    for _ in 0..6 {
        slate.increment(2, 0);
    }
    let n = slate.normalized_pixels();
    assert_eq!(n, vec![0, 32767, 65535]);
    assert!(n[0] <= n[1] && n[1] <= n[2]);
}

#[test]
fn pixel_bytes_are_big_endian() {
    let mut slate = Slate::from_view(3, 1);
    for _ in 0..3 {
        slate.increment(1, 0);
    }
    for _ in 0..6 {
        slate.increment(2, 0);
    }
    assert_eq!(slate.pixel_bytes(), vec![0x00, 0x00, 0x7f, 0xff, 0xff, 0xff]);
}

#[test]
fn accepts_and_absorbs_hits() {
    let mut slate = Slate::from_view(2, 2);
    let hits = vec![(0u32, 0u32, 1u16), (1, 1, 7), (0, 0, 1)];
    assert!(slate.accepts(&hits));
    slate.absorb(&hits);
    assert_eq!(slate.max(), 2);
    assert_eq!(slate.normalized_pixels(), vec![65535, 0, 0, 32767]);
}

#[test]
fn refuses_hits_outside_the_matrix() {
    let slate = Slate::from_view(2, 2);
    assert!(!slate.accepts(&[(0, 2, 1)]));
    assert!(!slate.accepts(&[(0, 0, 1), (5, 0, 1)]));
    assert!(!slate.accepts(&[(0, u32::MAX, 1)]));
    assert!(slate.accepts(&[(3, 0, 1)]));
}

#[test]
fn refuses_a_counter_overflow() {
    let mut slate = Slate::from_view(1, 1);
    let mut batch = Batch::new(1, 2);
    for _ in 0..65535 {
        batch.coords.push((0, 0, 1));
    }
    assert!(slate.accepts(&batch.coords));
    slate.absorb(&batch.coords);
    assert_eq!(slate.max(), 65535);
    assert!(!slate.accepts(&[(0, 0, 1)]));
}
