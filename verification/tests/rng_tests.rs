use buddhabrot::rng::Rng;

#[test]
fn first_draws_from_the_finder_seed() {
    let mut rng = Rng::new(4678059);
    let drawn: Vec<u32> = (0..5).map(|_| rng.u32()).collect();
    assert_eq!(drawn, vec![1109562359, 3512226709, 1691780450, 924451103, 3656467097]);
}

#[test]
fn first_draws_from_seed_one() {
    let mut rng = Rng::new(1);
    assert_eq!(rng.u32(), 3018268696);
    assert_eq!(rng.u32(), 1272122893);
    assert_eq!(rng.u32(), 2862735652);
}

#[test]
fn zero_seed_gives_zeros() {
    let mut rng = Rng::new(0);
    for _ in 0..3 {
        assert_eq!(rng.u32(), 0);
    }
}

#[test]
fn draws_across_a_regeneration() {
    let mut rng = Rng::new(5489);
    let drawn: Vec<u32> = (0..1000).map(|_| rng.u32()).collect();
    assert_eq!(drawn[623], 1198774652);
    assert_eq!(drawn[624], 2550178253);
    assert_eq!(drawn[999], 887284396);
}

#[test]
fn u64_joins_two_draws_high_half_first() {
    let mut rng = Rng::new(4678059);
    assert_eq!(rng.u64(), 4765534048289837973);
    assert_eq!(rng.u64(), 7266141705686614303);
    let mut a = Rng::new(4678059);
    let hi = a.u32() as u64;
    let lo = a.u32() as u64;
    assert_eq!((hi << 32) | lo, 4765534048289837973);
}

#[test]
fn same_seed_same_stream() {
    let mut a = Rng::new(987654321);
    let mut b = Rng::new(987654321);
    for _ in 0..1500 {
        assert_eq!(a.u32(), b.u32());
    }
}

#[test]
fn first_draw_regenerates_the_state() {
    let mut rng = Rng::new(0x8000_0000);
    assert_eq!(rng.u32(), 0xcc18_3306);
}

#[test]
fn distinct_seeds_can_share_a_first_draw() {
    let mut a = Rng::new(0xa621_412a);
    let mut b = Rng::new(0x35c6_e50b);
    assert_eq!(a.u32(), 0xd6da_efe1);
    assert_eq!(b.u32(), 0xd6da_efe1);
}
