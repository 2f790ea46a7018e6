use color_picker::cmyk::Cmyk;
use color_picker::color::{Color, ColorSpaceCombo};
use color_picker::fixed::{clamp, div_round, scale, wrap, ONE, SEXTANT, TURN};
use color_picker::hsv::Hsv;
use color_picker::oklab::Oklab;
use color_picker::oklch::Oklch;
use color_picker::rgb::Rgb;

fn hsv_channels(hsv: &Hsv) -> (i64, i64, i64) {
    (hsv.hue(), hsv.saturation(), hsv.value())
}

fn cmyk_channels(cmyk: &Cmyk) -> (i64, i64, i64, i64) {
    (cmyk.cyan(), cmyk.magenta(), cmyk.yellow(), cmyk.key())
}

fn grid() -> Vec<i64> {
    let mut steps = vec![1, 2, 3, 999_999, 333_333, 666_667, 40_450, 3_131];
    let mut v = 0;
    while v <= ONE {
        steps.push(v);
        v += 62_500;
    }
    steps
}

#[test]
fn black_has_zero_saturation() {
    let hsv = Hsv::from_rgb([0, 0, 0]);
    assert_eq!(hsv_channels(&hsv), (0, 0, 0));
}

#[test]
fn value_zero_gives_zero_saturation_for_any_hue() {
    for hue in [0, 17_000_000, SEXTANT, 3 * SEXTANT, 359_999_000] {
        for saturation in [0, 1, 500_000, ONE] {
            let rgb = Hsv::new(hue, saturation, 0).to_rgb();
            assert_eq!(rgb, [0, 0, 0]);
            assert_eq!(Hsv::from_rgb(rgb).saturation(), 0);
        }
    }
}

#[test]
fn greys_have_no_hue_and_no_saturation() {
    for v in [1, 250_000, 500_000, 999_999, ONE] {
        assert_eq!(hsv_channels(&Hsv::from_rgb([v, v, v])), (0, 0, v));
    }
}

#[test]
fn zero_saturation_forces_grey() {
    for hue in [0, 45_000_000, 200_000_000, 359_000_000] {
        assert_eq!(Hsv::new(hue, 0, 700_000).to_rgb(), [700_000, 700_000, 700_000]);
    }
}

#[test]
fn black_is_key_alone() {
    let cmyk = Cmyk::from_rgb([0, 0, 0]);
    assert_eq!(cmyk_channels(&cmyk), (0, 0, 0, ONE));
    assert_eq!(cmyk.to_rgb(), [0, 0, 0]);
}

#[test]
fn hsv_of_a_mixed_colour() {
    assert_eq!(
        hsv_channels(&Hsv::from_rgb([200_000, 400_000, 600_000])),
        (210_000_000, 666_667, 600_000)
    );
    assert_eq!(
        hsv_channels(&Hsv::from_rgb([600_000, 400_000, 200_000])),
        (30_000_000, 666_667, 600_000)
    );
    assert_eq!(
        hsv_channels(&Hsv::from_rgb([123_456, 654_321, 999_999])),
        (203_661_908, 876_544, 999_999)
    );
}

#[test]
fn rgb_of_a_mixed_hsv() {
    assert_eq!(Hsv::new(210_000_000, 666_667, 600_000).to_rgb(), [200_000, 400_000, 600_000]);
    assert_eq!(Hsv::new(30_000_000, 500_000, 800_000).to_rgb(), [800_000, 600_000, 400_000]);
    assert_eq!(Hsv::new(359_999_000, ONE, ONE).to_rgb(), [ONE, 0, 17]);
}

#[test]
fn cmyk_of_a_mixed_colour() {
    assert_eq!(
        cmyk_channels(&Cmyk::from_rgb([200_000, 400_000, 600_000])),
        (666_667, 333_333, 0, 400_000)
    );
    assert_eq!(cmyk_channels(&Cmyk::from_rgb([ONE, 500_000, 0])), (0, 500_000, ONE, 0));
}

#[test]
fn rgb_of_a_mixed_cmyk() {
    assert_eq!(Cmyk::new(666_667, 333_333, 0, 400_000).to_rgb(), [200_000, 400_000, 600_000]);
    assert_eq!(Cmyk::new(100_000, 200_000, 300_000, 400_000).to_rgb(), [540_000, 480_000, 420_000]);
}

#[test]
fn rgb_round_trips_through_hsv_on_a_grid() {
    let steps = grid();
    for &r in &steps {
        for &g in &steps {
            for &b in &steps {
                assert_eq!(Hsv::from_rgb([r, g, b]).to_rgb(), [r, g, b]);
            }
        }
    }
}

#[test]
fn rgb_round_trips_through_cmyk_on_a_grid() {
    let steps = grid();
    for &r in &steps {
        for &g in &steps {
            for &b in &steps {
                assert_eq!(Cmyk::from_rgb([r, g, b]).to_rgb(), [r, g, b]);
            }
        }
    }
}

#[test]
fn boundary_hues_round_trip() {
    for hue in [0, SEXTANT, 2 * SEXTANT, 3 * SEXTANT, 4 * SEXTANT, 5 * SEXTANT, 359_999_000] {
        let rgb = Hsv::new(hue, ONE, ONE).to_rgb();
        let back = Hsv::from_rgb(rgb);
        assert_eq!(back.to_rgb(), rgb);
        assert_eq!(back.saturation(), ONE);
        assert_eq!(back.value(), ONE);
        assert!((back.hue() - hue).abs() <= 100);
    }
}

#[test]
fn primaries_and_secondaries_have_landmark_hues() {
    let half = 500_000;
    assert_eq!(Hsv::from_rgb([ONE, 0, 0]).hue(), 0);
    assert_eq!(Hsv::from_rgb([ONE, ONE, 0]).hue(), SEXTANT);
    assert_eq!(Hsv::from_rgb([0, ONE, 0]).hue(), 2 * SEXTANT);
    assert_eq!(Hsv::from_rgb([0, ONE, ONE]).hue(), 3 * SEXTANT);
    assert_eq!(Hsv::from_rgb([0, 0, ONE]).hue(), 4 * SEXTANT);
    assert_eq!(Hsv::from_rgb([ONE, 0, ONE]).hue(), 5 * SEXTANT);
    assert_eq!(Hsv::from_rgb([half, 100, 100]).hue(), 0);
    assert_eq!(Hsv::from_rgb([half, half, 100]).hue(), SEXTANT);
    assert_eq!(Hsv::from_rgb([ONE, 0, 1]).hue(), 359_999_940);
}

#[test]
fn rgb_out_of_range_is_clamped_before_conversion() {
    assert_eq!(
        hsv_channels(&Hsv::from_rgb([2 * ONE, -5, 500_000])),
        hsv_channels(&Hsv::from_rgb([ONE, 0, 500_000]))
    );
    assert_eq!(
        cmyk_channels(&Cmyk::from_rgb([i64::MAX, i64::MIN, 500_000])),
        cmyk_channels(&Cmyk::from_rgb([ONE, 0, 500_000]))
    );
    assert_eq!(Rgb::from_rgb([-1, ONE + 1, 7]).to_rgb(), [0, ONE, 7]);
}

#[test]
fn constructors_bring_channels_into_range() {
    let hsv = Hsv::new(-ONE, 2 * ONE, -3);
    assert_eq!(hsv_channels(&hsv), (359 * ONE, ONE, 0));
    let cmyk = Cmyk::new(-1, ONE + 1, 5, ONE);
    assert_eq!(cmyk_channels(&cmyk), (0, ONE, 5, ONE));
    let lab = Oklab::new(2 * ONE, -ONE, ONE);
    assert_eq!((lab.lightness(), lab.a(), lab.b()), (ONE, -400_000, 400_000));
    let lch = Oklch::new(-1, ONE, 725 * ONE);
    assert_eq!((lch.lightness(), lch.chroma(), lch.hue()), (0, 400_000, 5 * ONE));
}

#[test]
fn colour_switches_space_through_the_rgb_pivot() {
    let rgb = Color::Rgb(Rgb::new(200_000, 400_000, 600_000));
    let hsv = rgb.to_hsv().unwrap();
    assert_eq!(hsv.selection(), ColorSpaceCombo::Hsv);
    assert_eq!(hsv.channel_value(0), Some(210_000_000));
    assert_eq!(hsv.channel_value(1), Some(666_667));
    assert_eq!(hsv.channel_value(2), Some(600_000));
    let cmyk = hsv.to_cmyk().unwrap();
    assert_eq!(cmyk.selection(), ColorSpaceCombo::Cmyk);
    assert_eq!(cmyk.channel_value(0), Some(666_667));
    assert_eq!(cmyk.channel_value(1), Some(333_333));
    assert_eq!(cmyk.channel_value(2), Some(0));
    assert_eq!(cmyk.channel_value(3), Some(400_000));
    let back = cmyk.to_rgb().unwrap();
    assert_eq!(back.selection(), ColorSpaceCombo::Rgb);
    assert_eq!(back.current_rgb(), Some([200_000, 400_000, 600_000]));
}

#[test]
fn the_pivot_survives_every_exact_space() {
    let steps = [0, 1, 40_000, 333_333, 500_000, 999_999, ONE];
    for &r in &steps {
        for &g in &steps {
            for &b in &steps {
                for space in [ColorSpaceCombo::Rgb, ColorSpaceCombo::Hsv, ColorSpaceCombo::Cmyk] {
                    let color = Color::from_rgb(space, [r, g, b]).unwrap();
                    assert_eq!(color.selection(), space);
                    assert_eq!(color.current_rgb(), Some([r, g, b]));
                }
            }
        }
    }
}

#[test]
fn perceptual_colours_have_no_exact_pivot() {
    let lab = Color::Oklab(Oklab::new(500_000, 100_000, -100_000));
    let lch = Color::Oklch(Oklch::new(500_000, 100_000, 90 * ONE));
    for color in [lab, lch] {
        assert_eq!(color.current_rgb(), None);
        assert!(color.to_rgb().is_none());
        assert!(color.to_hsv().is_none());
        assert!(color.to_cmyk().is_none());
    }
    assert!(Color::from_rgb(ColorSpaceCombo::Oklab, [0, 0, 0]).is_none());
    assert!(Color::from_rgb(ColorSpaceCombo::Oklch, [0, 0, 0]).is_none());
}

#[test]
fn bytes_round_trip_through_channels() {
    for byte in 0..=255u8 {
        let rgb = Rgb::from_bytes([byte, 255 - byte, byte / 2]);
        assert_eq!(rgb.to_bytes(), [byte, 255 - byte, byte / 2]);
    }
}

#[test]
fn bytes_stand_for_fractions_of_255() {
    let rgb = Rgb::from_bytes([0, 128, 255]);
    assert_eq!(rgb.to_rgb(), [0, 501_961, ONE]);
    assert_eq!(Rgb::from_bytes([1, 2, 254]).to_rgb(), [3_922, 7_843, 996_078]);
    assert_eq!(Rgb::new(500_000, 1_960, 1_961).to_bytes(), [128, 0, 1]);
}

#[test]
fn arithmetic_helpers_round_to_nearest() {
    assert_eq!(div_round(7, 2), 4);
    assert_eq!(div_round(5, 3), 2);
    assert_eq!(div_round(4, 3), 1);
    assert_eq!(div_round(0, 9), 0);
    assert_eq!(scale(ONE, 1, 3), 333_333);
    assert_eq!(scale(ONE, 2, 3), 666_667);
    assert_eq!(scale(255, 500_000, ONE), 128);
    assert_eq!(scale(0, 5, 7), 0);
    assert_eq!(scale(9, 7, 7), 9);
    assert_eq!(clamp(5, 0, 3), 3);
    assert_eq!(clamp(-5, 0, 3), 0);
    assert_eq!(clamp(2, 0, 3), 2);
    assert_eq!(wrap(370 * ONE, TURN), 10 * ONE);
    assert_eq!(wrap(-1, TURN), TURN - 1);
    assert_eq!(wrap(-TURN, TURN), 0);
    assert_eq!(wrap(i64::MIN, 7), (i64::MIN).rem_euclid(7));
    assert_eq!(wrap(i64::MAX, 7), (i64::MAX).rem_euclid(7));
}

#[test]
fn a_triple_in_range_is_normalized_onto_itself() {
    for rgb in [[0, 0, 0], [ONE, ONE, ONE], [1, 500_000, 999_999], [ONE, 0, 333_333]] {
        assert_eq!(Rgb::normalized(rgb).to_rgb(), rgb);
    }
}

#[test]
fn a_triple_that_overshoots_is_fitted_into_range() {
    assert_eq!(Rgb::normalized([2 * ONE, ONE, 0]).to_rgb(), [ONE, 500_000, 0]);
    assert_eq!(Rgb::normalized([-ONE, 0, ONE]).to_rgb(), [0, 500_000, ONE]);
    assert_eq!(Rgb::normalized([-500_000, 250_000, 1_500_000]).to_rgb(), [0, 375_000, ONE]);
    assert_eq!(Rgb::normalized([-ONE, -ONE, -ONE]).to_rgb(), [0, 0, 0]);
    assert_eq!(Rgb::normalized([3 * ONE, 3 * ONE, 3 * ONE]).to_rgb(), [ONE, ONE, ONE]);
    assert_eq!(Rgb::normalized([i64::MAX, 0, i64::MIN]).to_rgb(), [ONE, 500_000, 0]);
    assert_eq!(Rgb::normalized([0, 0, 3 * ONE]).to_rgb(), [0, 0, ONE]);
    assert_eq!(Rgb::normalized([ONE, 0, 3 * ONE]).to_rgb(), [333_333, 0, ONE]);
}
