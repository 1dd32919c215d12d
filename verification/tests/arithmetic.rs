use bitlogic::arith::half_adder;
use bitlogic::{adder, multiplier};

fn test_adder(x: u32, y: u32) {
    let expected = x + y;
    let result = adder(x, y);
    assert_eq!(expected, result);
}

fn test_multiplier(x: u32, y: u32) {
    let expected = x * y;
    let result = multiplier(x, y);
    assert_eq!(expected, result);
}

#[test]
fn adder_tests() {
    test_adder(1, 1);
    test_adder(3, 6);
    test_adder(32405, 21412421);
    test_adder(1321, 2312);
    test_adder(868, 3213123);
    test_adder(45679, 4364367);
}

#[test]
fn multiplier_tests() {
    test_multiplier(1, 1);
    test_multiplier(3, 6);
    test_multiplier(233, 6213);
    test_multiplier(6533, 624);
    test_multiplier(322309, 6543);
}

#[test]
fn adder_with_zero_is_identity() {
    assert_eq!(adder(0, 0), 0);
    assert_eq!(adder(0, 77), 77);
    assert_eq!(adder(77, 0), 77);
    assert_eq!(adder(u32::MAX, 0), u32::MAX);
}

#[test]
fn adder_wraps_around() {
    assert_eq!(adder(u32::MAX, 1), 0);
    assert_eq!(adder(u32::MAX, 2), 1);
    assert_eq!(adder(u32::MAX, u32::MAX), u32::MAX - 1);
    assert_eq!(adder(0x8000_0000, 0x8000_0000), 0);
    assert_eq!(adder(0xffff_0000, 0x0001_0000), 0);
    assert_eq!(adder(4_000_000_000, 500_000_000), 205_032_704);
}

#[test]
fn adder_matches_wrapping_add() {
    let samples: [u32; 9] = [
        0,
        1,
        2,
        0x5555_5555,
        0xaaaa_aaaa,
        0x7fff_ffff,
        0x8000_0000,
        0xdead_beef,
        u32::MAX,
    ];
    for a in samples {
        for b in samples {
            assert_eq!(adder(a, b), a.wrapping_add(b));
        }
    }
}

#[test]
fn adder_carries_through_every_bit() {
    assert_eq!(adder(0x7fff_ffff, 1), 0x8000_0000);
    assert_eq!(adder(0x0000_ffff, 1), 0x0001_0000);
    assert_eq!(adder(1, 0x7fff_ffff), 0x8000_0000);
}

#[test]
fn half_adder_gives_sum_and_carry_bits() {
    assert_eq!(half_adder(0b1100, 0b1010), (0b0110, 0b1000));
    assert_eq!(half_adder(0, 0), (0, 0));
    assert_eq!(half_adder(u32::MAX, u32::MAX), (0, u32::MAX));
    assert_eq!(half_adder(5, 2), (7, 0));
}

#[test]
fn multiplier_by_zero_is_zero() {
    assert_eq!(multiplier(0, 0), 0);
    assert_eq!(multiplier(1, 0), 0);
    assert_eq!(multiplier(123_456, 0), 0);
    assert_eq!(multiplier(u32::MAX, 0), 0);
    assert_eq!(multiplier(0, 1000), 0);
}

#[test]
fn multiplier_by_one_is_identity() {
    assert_eq!(multiplier(u32::MAX, 1), u32::MAX);
    assert_eq!(multiplier(1, 4096), 4096);
}

#[test]
fn multiplier_wraps_around() {
    assert_eq!(multiplier(0x8000_0000, 2), 0);
    assert_eq!(multiplier(u32::MAX, 2), u32::MAX - 1);
    assert_eq!(multiplier(u32::MAX, 3), u32::MAX - 2);
    assert_eq!(multiplier(0x1000_0000, 17), 0x1000_0000);
    assert_eq!(multiplier(3_000_000_000, 1000), 3_000_000_000u32.wrapping_mul(1000));
    assert_eq!(multiplier(123_456_789, 4321), 880_840_565);
}
