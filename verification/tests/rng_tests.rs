use inkverify_core::rng::Xorshift32;

#[test]
fn zero_seed_behaves_as_the_substitute_seed() {
    let mut from_zero = Xorshift32::new(0);
    let mut from_substitute = Xorshift32::new(0xDEADBEEF);
    for _ in 0..10_000 {
        assert_eq!(from_zero.next_u8(), from_substitute.next_u8());
    }
    let mut from_zero = Xorshift32::new(0);
    let mut from_substitute = Xorshift32::new(0xDEADBEEF);
    for _ in 0..10_000 {
        assert_eq!(from_zero.next_bool(), from_substitute.next_bool());
    }
}

#[test]
fn zero_seed_does_not_stay_at_zero() {
    let mut rng = Xorshift32::new(0);
    let bytes: Vec<u8> = (0..8).map(|_| rng.next_u8()).collect();
    assert_eq!(bytes, vec![183, 66, 88, 59, 72, 27, 92, 179]);
}

#[test]
fn bytes_of_seed_one() {
    let mut rng = Xorshift32::new(1);
    let bytes: Vec<u8> = (0..8).map(|_| rng.next_u8()).collect();
    assert_eq!(bytes, vec![33, 1, 197, 79, 209, 208, 26, 178]);
}

#[test]
fn cells_of_the_substitute_seed() {
    let mut rng = Xorshift32::new(0xDEADBEEF);
    let cells: Vec<u8> = (0..8).map(|_| rng.next_bool()).collect();
    assert_eq!(cells, vec![1, 0, 0, 0, 0, 0, 0, 1]);
}

#[test]
fn byte_128_is_an_empty_cell() {
    assert_eq!(Xorshift32::new(136).next_u8(), 128);
    assert_eq!(Xorshift32::new(136).next_bool(), 0);
}

#[test]
fn byte_129_is_a_live_cell() {
    assert_eq!(Xorshift32::new(171).next_u8(), 129);
    assert_eq!(Xorshift32::new(171).next_bool(), 1);
}

#[test]
fn lowest_and_highest_bytes() {
    assert_eq!(Xorshift32::new(273).next_u8(), 0);
    assert_eq!(Xorshift32::new(273).next_bool(), 0);
    assert_eq!(Xorshift32::new(30).next_u8(), 255);
    assert_eq!(Xorshift32::new(30).next_bool(), 1);
}

#[test]
fn same_seed_same_stream() {
    let mut a = Xorshift32::new(0x1234_5678);
    let mut b = Xorshift32::new(0x1234_5678);
    for _ in 0..1000 {
        assert_eq!(a.next_u8(), b.next_u8());
    }
}

#[test]
fn next_bool_and_next_u8_advance_alike() {
    let mut bytes = Xorshift32::new(99);
    let mut cells = Xorshift32::new(99);
    for _ in 0..1000 {
        let byte = bytes.next_u8();
        let cell = cells.next_bool();
        assert_eq!(cell, if byte > 128 { 1 } else { 0 });
    }
}

#[test]
fn high_bits_shifted_out_are_dropped() {
    let mut rng = Xorshift32::new(0xFFFF_FFFF);
    let mut x: u32 = 0xFFFF_FFFF;
    for _ in 0..100 {
        x ^= x.wrapping_shl(13);
        x ^= x >> 17;
        x ^= x.wrapping_shl(5);
        assert_eq!(rng.next_u8(), (x & 0xFF) as u8);
    }
}
