use quake_net::quant::{
    decode_angle, decode_coord, encode_angle, encode_coord, Angle, Coord, Ratio,
};

fn ratio(num: i32, den: u32) -> Ratio {
    Ratio::new(num, den).unwrap()
}

fn as_f64(value: Ratio) -> f64 {
    value.num() as f64 / value.den() as f64
}

#[test]
fn ratio_needs_a_denominator() {
    assert!(Ratio::new(1, 0).is_none());
    let half = ratio(-1, 2);
    assert_eq!(half.num(), -1);
    assert_eq!(half.den(), 2);
}

#[test]
fn coord_is_eight_times_the_value_rounded() {
    assert_eq!(encode_coord(ratio(0, 1)), Coord { eighths: 0 });
    assert_eq!(encode_coord(ratio(1, 1)), Coord { eighths: 8 });
    assert_eq!(encode_coord(ratio(3, 2)), Coord { eighths: 12 });
    assert_eq!(encode_coord(ratio(-3, 2)), Coord { eighths: -12 });
    assert_eq!(encode_coord(ratio(1, 3)), Coord { eighths: 3 });
    assert_eq!(encode_coord(ratio(-1, 3)), Coord { eighths: -3 });
    assert_eq!(encode_coord(ratio(1, 10)), Coord { eighths: 1 });
    assert_eq!(encode_coord(ratio(1, 20)), Coord { eighths: 0 });
}

#[test]
fn coord_rounds_halves_away_from_zero() {
    assert_eq!(encode_coord(ratio(1, 16)), Coord { eighths: 1 });
    assert_eq!(encode_coord(ratio(-1, 16)), Coord { eighths: -1 });
    assert_eq!(encode_coord(ratio(3, 16)), Coord { eighths: 2 });
    assert_eq!(encode_coord(ratio(-3, 16)), Coord { eighths: -2 });
}

#[test]
fn coord_is_held_to_sixteen_bits() {
    assert_eq!(encode_coord(ratio(4096, 1)), Coord { eighths: 32767 });
    assert_eq!(encode_coord(ratio(-4096, 1)), Coord { eighths: -32768 });
    assert_eq!(encode_coord(ratio(5000, 1)), Coord { eighths: 32767 });
    assert_eq!(encode_coord(ratio(-5000, 1)), Coord { eighths: -32768 });
    assert_eq!(encode_coord(ratio(i32::MAX, 1)), Coord { eighths: 32767 });
    assert_eq!(encode_coord(ratio(i32::MIN, 1)), Coord { eighths: -32768 });
    assert_eq!(encode_coord(ratio(i32::MAX, u32::MAX)), Coord { eighths: 4 });
    assert_eq!(encode_coord(ratio(32767, 8)), Coord { eighths: 32767 });
}

#[test]
fn coord_value_is_its_count_over_eight() {
    let back = decode_coord(Coord { eighths: -12 });
    assert_eq!((back.num(), back.den()), (-12, 8));
    assert_eq!(as_f64(back), -1.5);
}

#[test]
fn coordinates_on_the_grid_within_range_come_back_exactly() {
    for eighths in -32767..=32767i32 {
        let stored = encode_coord(ratio(eighths, 8));
        assert_eq!(stored.eighths as i32, eighths);
        let back = decode_coord(stored);
        assert_eq!(back.num() * 8, eighths * back.den() as i32);
    }
    // the same values written with other denominators
    assert_eq!(decode_coord(encode_coord(ratio(-4095, 1))).num(), -4095 * 8);
    assert_eq!(decode_coord(encode_coord(ratio(7, 4))).num(), 14);
    assert_eq!(decode_coord(encode_coord(ratio(700, 400))).num(), 14);
}

#[test]
fn angle_is_the_value_in_256ths_of_a_turn() {
    assert_eq!(encode_angle(ratio(0, 1)), Angle { steps: 0 });
    assert_eq!(encode_angle(ratio(90, 1)), Angle { steps: 64 });
    assert_eq!(encode_angle(ratio(-90, 1)), Angle { steps: -64 });
    assert_eq!(encode_angle(ratio(45, 1)), Angle { steps: 32 });
    assert_eq!(encode_angle(ratio(1, 1)), Angle { steps: 1 });
    assert_eq!(encode_angle(ratio(2, 1)), Angle { steps: 1 });
    assert_eq!(encode_angle(ratio(3, 1)), Angle { steps: 2 });
    assert_eq!(encode_angle(ratio(45, 64)), Angle { steps: 1 });
    assert_eq!(encode_angle(ratio(45, 65)), Angle { steps: 0 });
    assert_eq!(encode_angle(ratio(-45, 64)), Angle { steps: -1 });
}

#[test]
fn angle_keeps_the_low_eight_bits() {
    assert_eq!(encode_angle(ratio(180, 1)), Angle { steps: -128 });
    assert_eq!(encode_angle(ratio(-180, 1)), Angle { steps: -128 });
    assert_eq!(encode_angle(ratio(270, 1)), Angle { steps: -64 });
    assert_eq!(encode_angle(ratio(360, 1)), Angle { steps: 0 });
    assert_eq!(encode_angle(ratio(450, 1)), Angle { steps: 64 });
    assert_eq!(encode_angle(ratio(-450, 1)), Angle { steps: -64 });
    assert_eq!(encode_angle(ratio(i32::MAX, 1)), Angle { steps: 90 });
    assert_eq!(encode_angle(ratio(i32::MIN, 1)), Angle { steps: -91 });
}

#[test]
fn angle_value_is_its_count_times_45_over_32() {
    let back = decode_angle(Angle { steps: 64 });
    assert_eq!((back.num(), back.den()), (2880, 32));
    assert_eq!(as_f64(back), 90.0);
    assert_eq!(as_f64(decode_angle(Angle { steps: -128 })), -180.0);
    assert_eq!(as_f64(decode_angle(Angle { steps: 127 })), 178.59375);
    assert_eq!(as_f64(decode_angle(Angle { steps: 1 })), 360.0 / 256.0);
}

#[test]
fn angles_come_back_within_one_step() {
    let step = 360.0 / 256.0;
    // every hundredth of a degree whose count fits the byte
    for hundredths in -18070..=17929i32 {
        let value = ratio(hundredths, 100);
        let back = decode_angle(encode_angle(value));
        let error = (as_f64(back) - as_f64(value)).abs();
        assert!(error <= step / 2.0 + 1e-9, "{} came back as {}", as_f64(value), as_f64(back));
        assert!(error <= step);
    }
}

#[test]
fn angle_outside_the_byte_comes_back_a_turn_away() {
    let back = decode_angle(encode_angle(ratio(360, 1)));
    assert_eq!(as_f64(back), 0.0);
    let back = decode_angle(encode_angle(ratio(17930, 100)));
    assert_eq!(as_f64(back), -180.0);
}

#[test]
fn angles_come_back_within_half_a_step_up_to_whole_turns() {
    let step = 360.0 / 256.0;
    for tenths in (-100_000..=100_000i32).step_by(7) {
        let value = ratio(tenths, 10);
        let back = as_f64(decode_angle(encode_angle(value)));
        let mut difference = (back - as_f64(value)) % 360.0;
        if difference > 180.0 {
            difference -= 360.0;
        }
        if difference < -180.0 {
            difference += 360.0;
        }
        assert!(difference.abs() <= step / 2.0 + 1e-9, "{} came back as {}", as_f64(value), back);
    }
}
