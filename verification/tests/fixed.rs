use modelc::fixed::{round_div_exec, Fixed, ONE_RAW};

fn fx(v: f64) -> Fixed {
    Fixed::from_raw((v * 65536.0).round() as i32)
}

#[test]
fn one_is_65536_raw() {
    assert_eq!(ONE_RAW, 65536);
    assert_eq!(Fixed::one().raw(), 65536);
    assert_eq!(Fixed::zero().raw(), 0);
    assert_eq!(Fixed::from_int(16).raw(), 1048576);
    assert_eq!(Fixed::from_int(-3).raw(), -196608);
    assert_eq!(Fixed::from_raw(-7).raw, -7);
}

#[test]
fn round_div_rounds_halves_away_from_zero() {
    assert_eq!(round_div_exec(7, 2), 4);
    assert_eq!(round_div_exec(-7, 2), -4);
    assert_eq!(round_div_exec(5, 2), 3);
    assert_eq!(round_div_exec(-5, 2), -3);
    assert_eq!(round_div_exec(4, 3), 1);
    assert_eq!(round_div_exec(5, 3), 2);
    assert_eq!(round_div_exec(-4, 3), -1);
    assert_eq!(round_div_exec(-5, 3), -2);
    assert_eq!(round_div_exec(0, 9), 0);
    assert_eq!(round_div_exec(8, 16), 1);
    assert_eq!(round_div_exec(7, 16), 0);
    assert_eq!(round_div_exec(-8, 16), -1);
    assert_eq!(round_div_exec(-7, 16), 0);
}

#[test]
fn round_div_agrees_with_float_rounding() {
    for n in -200i128..200 {
        for d in 1i128..12 {
            let expected = (n as f64 / d as f64).round() as i128;
            assert_eq!(round_div_exec(n, d), expected);
        }
    }
}

#[test]
fn div16_maps_block_space_to_unit_cube() {
    assert_eq!(Fixed::from_int(16).div16(), Fixed::one());
    assert_eq!(Fixed::from_int(8).div16(), fx(0.5));
    assert_eq!(Fixed::from_int(-16).div16(), fx(-1.0));
    assert_eq!(Fixed::from_raw(8).div16().raw(), 1);
    assert_eq!(Fixed::from_raw(7).div16().raw(), 0);
    assert_eq!(Fixed::from_raw(-8).div16().raw(), -1);
    assert_eq!(Fixed::from_raw(i32::MAX).div16().raw(), 134217728);
    assert_eq!(Fixed::from_raw(i32::MIN).div16().raw(), -134217728);
}

#[test]
fn saturate_keeps_values_in_range() {
    assert_eq!(Fixed::saturate(5).raw(), 5);
    assert_eq!(Fixed::saturate(-5).raw(), -5);
    assert_eq!(Fixed::saturate(2147483647).raw(), i32::MAX);
    assert_eq!(Fixed::saturate(2147483648).raw(), i32::MAX);
    assert_eq!(Fixed::saturate(-2147483648).raw(), i32::MIN);
    assert_eq!(Fixed::saturate(-2147483649).raw(), i32::MIN);
    assert_eq!(Fixed::saturate(1i128 << 100).raw(), i32::MAX);
}

#[test]
fn binary32_of_simple_values() {
    assert_eq!(Fixed::zero().to_binary32(), 0);
    assert_eq!(Fixed::one().to_binary32(), 0x3F80_0000);
    assert_eq!(fx(-1.0).to_binary32(), 0xBF80_0000);
    assert_eq!(fx(0.5).to_binary32(), 0x3F00_0000);
    assert_eq!(fx(2.5).to_binary32(), 0x4020_0000);
    assert_eq!(fx(-22.5).to_binary32(), 0xC1B4_0000);
    assert_eq!(Fixed::from_raw(1).to_binary32(), 0x3780_0000);
    assert_eq!(Fixed::from_raw(i32::MIN).to_binary32(), 0xC700_0000);
    assert_eq!(Fixed::from_raw(i32::MAX).to_binary32(), 0x4700_0000);
}

#[test]
fn binary32_agrees_with_the_machine() {
    let mut samples: Vec<i32> = vec![
        0,
        1,
        -1,
        2,
        3,
        65535,
        65536,
        65537,
        16777215,
        16777216,
        16777217,
        16777218,
        16777219,
        33554431,
        33554433,
        33554434,
        33554435,
        50331648,
        50331649,
        0x7FFF_FF7F,
        0x7FFF_FF80,
        0x7FFF_FF81,
        0x7FFF_FFBF,
        0x7FFF_FFC0,
        i32::MAX,
        i32::MIN,
        i32::MIN + 1,
        i32::MIN + 128,
        i32::MIN + 129,
    ];
    let mut x: u32 = 12345;
    for _ in 0..5000 {
        x = x.wrapping_mul(1664525).wrapping_add(1013904223);
        samples.push(x as i32);
        samples.push((x >> 7) as i32);
        samples.push(-((x >> 9) as i32));
    }
    for raw in samples {
        let expected = ((raw as f64 / 65536.0) as f32).to_bits();
        assert_eq!(Fixed::from_raw(raw).to_binary32(), expected, "raw {}", raw);
    }
}
