use true_peak::detector::TruePeak;

#[test]
fn rates_below_96k_oversample_four_times() {
    for rate in [1u32, 8_000, 44_100, 48_000, 95_999] {
        let tp = TruePeak::new(rate, 1).unwrap();
        assert_eq!(tp.factor(), 4);
        assert_eq!(tp.rate(), rate);
    }
}

#[test]
fn rates_from_96k_oversample_twice() {
    for rate in [96_000u32, 176_400, 191_999] {
        let tp = TruePeak::new(rate, 2).unwrap();
        assert_eq!(tp.factor(), 2);
        assert_eq!(tp.channels(), 2);
    }
}

#[test]
fn rates_from_192k_are_unsupported() {
    for rate in [192_000u32, 384_000, u32::MAX] {
        assert!(TruePeak::new(rate, 1).is_none());
    }
}

#[test]
fn scratch_holds_400ms_oversampled() {
    assert_eq!(TruePeak::new(48_000, 1).unwrap().scratch_len(), 76_800);
    assert_eq!(TruePeak::new(48_000, 2).unwrap().scratch_len(), 153_600);
    assert_eq!(TruePeak::new(44_100, 1).unwrap().scratch_len(), 70_560);
    assert_eq!(TruePeak::new(96_000, 1).unwrap().scratch_len(), 76_800);
    assert_eq!(TruePeak::new(1, 3).unwrap().scratch_len(), 0);
    assert_eq!(TruePeak::new(5, 1).unwrap().scratch_len(), 16);
}

#[test]
fn largest_configuration_does_not_overflow() {
    let tp = TruePeak::new(95_999, u32::MAX).unwrap();
    assert_eq!(tp.scratch_len(), 4 * 9_600 * (u32::MAX as u64) * 4);
}

#[test]
fn interpolator_has_49_taps() {
    assert_eq!(TruePeak::new(48_000, 1).unwrap().taps(), 49);
    assert_eq!(TruePeak::new(96_000, 1).unwrap().taps(), 49);
}

#[test]
fn window_len_of_a_fitting_window() {
    let tp = TruePeak::new(48_000, 2).unwrap();
    assert_eq!(tp.window_len(200, 10, 50, 2), Some(400));
    assert_eq!(tp.window_len(200, 0, 100, 2), Some(800));
    assert_eq!(tp.window_len(200, 100, 0, 2), Some(0));
}

#[test]
fn window_past_the_channel_segment_is_refused() {
    let tp = TruePeak::new(48_000, 2).unwrap();
    assert_eq!(tp.window_len(200, 60, 41, 2), None);
    assert_eq!(tp.window_len(200, 101, 0, 2), None);
}

#[test]
fn window_with_wrong_accumulator_count_is_refused() {
    let tp = TruePeak::new(48_000, 2).unwrap();
    assert_eq!(tp.window_len(200, 0, 10, 1), None);
    assert_eq!(tp.window_len(200, 0, 10, 3), None);
}

#[test]
fn segment_larger_than_scratch_is_refused() {
    let tp = TruePeak::new(48_000, 1).unwrap();
    assert_eq!(tp.window_len(19_200, 0, 19_200, 1), Some(76_800));
    assert_eq!(tp.window_len(19_201, 0, 1, 1), None);
}

#[test]
fn written_region_larger_than_scratch_is_refused() {
    let tp = TruePeak::new(48_000, 2).unwrap();
    // Each segment oversampled fits, but both channels together do not.
    assert_eq!(tp.window_len(2 * 38_400, 0, 38_400, 2), None);
    assert_eq!(tp.window_len(2 * 38_400, 0, 19_200, 2), Some(153_600));
}
