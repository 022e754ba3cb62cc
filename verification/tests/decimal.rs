use rbar::decimal::percent;

#[test]
fn percent_keeps_one_place() {
    assert_eq!(percent(567_000, 1), "56.7%");
    assert_eq!(percent(571_000, 1), "57.1%");
}

#[test]
fn percent_without_places_rounds_to_nearest() {
    assert_eq!(percent(567_000, 0), "57%");
    assert_eq!(percent(564_999, 0), "56%");
    assert_eq!(percent(0, 0), "0%");
    assert_eq!(percent(1_000_000, 0), "100%");
}

#[test]
fn percent_tie_goes_to_even() {
    assert_eq!(percent(565_000, 0), "56%");
    assert_eq!(percent(575_000, 0), "58%");
    assert_eq!(percent(5_000, 0), "0%");
    assert_eq!(percent(15_000, 0), "2%");
    assert_eq!(percent(562_500, 1), "56.2%");
    assert_eq!(percent(563_500, 1), "56.4%");
    assert_eq!(percent(560_050, 3), "56.005%");
    assert_eq!(percent(560_051, 3), "56.005%");
    assert_eq!(percent(560_035, 3), "56.004%");
}

#[test]
fn percent_rounding_carries_into_whole_part() {
    assert_eq!(percent(999_999, 2), "100.00%");
    assert_eq!(percent(999_999, 3), "100.000%");
    assert_eq!(percent(99_999, 0), "10%");
    assert_eq!(percent(999_949, 2), "99.99%");
}

#[test]
fn percent_with_all_places_is_exact() {
    assert_eq!(percent(567_891, 4), "56.7891%");
    assert_eq!(percent(1, 4), "0.0001%");
    assert_eq!(percent(0, 4), "0.0000%");
}

#[test]
fn percent_pads_with_zeros_beyond_its_places() {
    assert_eq!(percent(567_000, 6), "56.700000%");
    assert_eq!(percent(123_456, 5), "12.34560%");
    let long = percent(1_000_000, 255);
    assert_eq!(long.len(), 3 + 1 + 255 + 1);
    assert!(long.starts_with("100.0000"));
    assert!(long.ends_with("0%"));
}

#[test]
fn percent_of_largest_count() {
    assert_eq!(percent(u32::MAX, 4), "429496.7295%");
    assert_eq!(percent(u32::MAX, 0), "429497%");
}

#[test]
fn percent_agrees_with_float_formatting_off_ties() {
    let readings: [f64; 6] = [0.0, 0.25, 0.567, 0.571, 0.9, 1.0];
    for reading in readings {
        let millionths = (reading * 1_000_000.0).round() as u32;
        for precision in 0..4u8 {
            let expected = format!("{:.1$}%", reading * 100.0, precision as usize);
            assert_eq!(percent(millionths, precision), expected);
        }
    }
}
