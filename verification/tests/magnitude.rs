use formatting::degrees::Degrees;

fn shown(x: f32) -> String {
    Degrees::from_bits(x.to_bits()).magnitude()
}

#[test]
fn three_decimal_places() {
    assert_eq!(shown(53.347778), "53.348");
    assert_eq!(shown(6.259722), "6.260");
    assert_eq!(shown(59.95), "59.950");
    assert_eq!(shown(123.1), "123.100");
    assert_eq!(shown(1.0), "1.000");
}

#[test]
fn sign_is_dropped() {
    assert_eq!(shown(-6.259722), "6.260");
    assert_eq!(shown(-0.0), "0.000");
    assert_eq!(shown(f32::NEG_INFINITY), "inf");
}

#[test]
fn ties_go_to_the_even_thousandth() {
    // 1/16 = 0.0625 and 3/16 = 0.1875 lie exactly between two thousandths.
    assert_eq!(shown(0.0625), "0.062");
    assert_eq!(shown(0.1875), "0.188");
    assert_eq!(shown(0.3125), "0.312");
    assert_eq!(shown(0.4375), "0.438");
    assert_eq!(shown(2.0005), "2.000");
    assert_eq!(shown(1024.0625), "1024.062");
    assert_eq!(shown(1024.1875), "1024.188");
}

#[test]
fn just_off_a_tie() {
    assert_eq!(shown(f32::from_bits(0.0625f32.to_bits() + 1)), "0.063");
    assert_eq!(shown(f32::from_bits(0.0625f32.to_bits() - 1)), "0.062");
    assert_eq!(shown(f32::from_bits(0.1875f32.to_bits() + 1)), "0.188");
    assert_eq!(shown(f32::from_bits(0.1875f32.to_bits() - 1)), "0.187");
}

#[test]
fn rounding_carries_into_the_whole_part() {
    assert_eq!(shown(0.9996), "1.000");
    assert_eq!(shown(9.9999), "10.000");
    assert_eq!(shown(99.99951), "100.000");
}

#[test]
fn small_values_round_to_zero_or_one_thousandth() {
    assert_eq!(shown(0.0004), "0.000");
    assert_eq!(shown(0.0005), "0.001");
    assert_eq!(shown(0.00049999), "0.000");
    assert_eq!(shown(f32::MIN_POSITIVE), "0.000");
    assert_eq!(shown(f32::from_bits(1)), "0.000");
    assert_eq!(shown(f32::from_bits(0x007f_ffff)), "0.000");
    assert_eq!(shown(f32::EPSILON), "0.000");
}

#[test]
fn whole_numbers_beyond_the_fraction_bits() {
    assert_eq!(shown(8388608.0), "8388608.000");
    assert_eq!(shown(16777216.0), "16777216.000");
    assert_eq!(shown(4294967296.0), "4294967296.000");
    assert_eq!(shown(1.0e10), "10000000000.000");
    assert_eq!(shown(f32::MAX), "340282346638528859811704183484516925440.000");
}

#[test]
fn largest_value_with_a_fraction() {
    assert_eq!(shown(8388607.5), "8388607.500");
    assert_eq!(shown(4194303.75), "4194303.750");
    assert_eq!(shown(2097151.875), "2097151.875");
    assert_eq!(shown(1048575.9375), "1048575.938");
}

#[test]
fn every_thousandth_below_two() {
    // Each k / 1000 below two is nearer to its own thousandth than to any
    // other, so all three decimal places are reached, leading zeros too.
    for k in 0..2000u32 {
        let x = k as f32 / 1000.0;
        assert_eq!(shown(x), format!("{}.{:03}", k / 1000, k % 1000));
    }
}

#[test]
fn what_is_no_number() {
    assert_eq!(shown(f32::NAN), "NaN");
    assert_eq!(shown(f32::from_bits(0xffc0_0001)), "NaN");
    assert_eq!(shown(f32::INFINITY), "inf");
}

#[test]
fn classification() {
    let nan = Degrees::from_bits(f32::NAN.to_bits());
    let inf = Degrees::from_bits(f32::NEG_INFINITY.to_bits());
    let one = Degrees::from_bits(1.0f32.to_bits());
    assert!(nan.is_nan() && !nan.is_infinite() && !nan.is_finite());
    assert!(!inf.is_nan() && inf.is_infinite() && !inf.is_finite());
    assert!(!one.is_nan() && !one.is_infinite() && one.is_finite());
}

#[test]
fn comparison_with_zero() {
    let values: [f32; 12] = [
        0.0,
        -0.0,
        1.0,
        -1.0,
        f32::MIN_POSITIVE,
        -f32::MIN_POSITIVE,
        f32::MAX,
        f32::MIN,
        f32::INFINITY,
        f32::NEG_INFINITY,
        f32::NAN,
        -f32::NAN,
    ];
    for x in values {
        assert_eq!(Degrees::from_bits(x.to_bits()).at_least_zero(), x >= 0.0);
    }
}

#[test]
fn every_exponent_agrees_with_the_standard_formatter() {
    let fractions: [u32; 9] = [
        0,
        1,
        0x0000_1000,
        0x0012_3456,
        0x003f_ffff,
        0x0040_0000,
        0x0040_0001,
        0x007f_fffe,
        0x007f_ffff,
    ];
    for field in 0..255u32 {
        for fraction in fractions {
            let bits = (field << 23) | fraction;
            let x = f32::from_bits(bits);
            assert_eq!(Degrees::from_bits(bits).magnitude(), format!("{:.3}", x));
            let negative = bits | 0x8000_0000;
            assert_eq!(Degrees::from_bits(negative).magnitude(), format!("{:.3}", x));
        }
    }
}

#[test]
fn a_sweep_of_bit_patterns_agrees_with_the_standard_formatter() {
    let mut bits: u32 = 0;
    loop {
        let x = f32::from_bits(bits);
        assert_eq!(Degrees::from_bits(bits).magnitude(), format!("{:.3}", x.abs()));
        match bits.checked_add(20_011) {
            Some(next) => bits = next,
            None => break,
        }
    }
}

#[test]
fn all_sixteenths_agree_with_the_standard_formatter() {
    // Every multiple of 1/16 up to 4096: the odd ones are the ties.
    for k in 0..65_536u32 {
        let x = k as f32 / 16.0;
        assert_eq!(shown(x), format!("{:.3}", x));
    }
}

#[test]
fn coordinates_on_a_grid_agree_with_the_standard_formatter() {
    let mut k: i32 = -180_000;
    while k <= 180_000 {
        let x = k as f32 / 1000.0;
        assert_eq!(shown(x), format!("{:.3}", x.abs()));
        k += 7;
    }
}
