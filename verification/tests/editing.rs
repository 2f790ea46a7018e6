use color_picker::cmyk::Cmyk;
use color_picker::color::{ChannelRange, Color, ColorSpaceCombo};
use color_picker::fixed::{ONE, TURN};
use color_picker::hexcode::parse;
use color_picker::hsv::Hsv;
use color_picker::oklab::Oklab;
use color_picker::oklch::Oklch;
use color_picker::rgb::Rgb;

fn channels(color: &Color) -> Vec<i64> {
    let mut out = Vec::new();
    for index in 0..color.channel_count() {
        out.push(color.channel_value(index).unwrap());
    }
    out
}

fn one_of_each() -> Vec<Color> {
    vec![
        Color::Rgb(Rgb::new(100_000, 200_000, 300_000)),
        Color::Hsv(Hsv::new(100 * ONE, 200_000, 300_000)),
        Color::Oklab(Oklab::new(100_000, 200_000, -300_000)),
        Color::Oklch(Oklch::new(100_000, 200_000, 300 * ONE)),
        Color::Cmyk(Cmyk::new(100_000, 200_000, 300_000, 400_000)),
    ]
}

#[test]
fn default_colour_is_black_in_rgb() {
    let color = Color::default();
    assert_eq!(color.selection(), ColorSpaceCombo::Rgb);
    assert_eq!(channels(&color), vec![0, 0, 0]);
    assert_eq!(color.current_rgb(), Some([0, 0, 0]));
}

#[test]
fn hue_wraps_past_a_full_turn() {
    let mut color = Color::Hsv(Hsv::new(0, ONE, ONE));
    color.change_value(0, 370 * ONE);
    assert_eq!(channels(&color), vec![10 * ONE, ONE, ONE]);
    color.change_value(0, TURN);
    assert_eq!(color.channel_value(0), Some(0));
    color.change_value(0, -ONE);
    assert_eq!(color.channel_value(0), Some(359 * ONE));
    color.change_value(0, 725 * ONE);
    assert_eq!(color.channel_value(0), Some(5 * ONE));
    let mut lch = Color::Oklch(Oklch::new(500_000, 100_000, 0));
    lch.change_value(2, 370 * ONE);
    assert_eq!(channels(&lch), vec![500_000, 100_000, 10 * ONE]);
}

#[test]
fn channels_clamp_at_their_bounds() {
    let mut rgb = Color::default();
    rgb.change_value(0, 3 * ONE / 2);
    rgb.change_value(1, -200_000);
    rgb.change_value(2, ONE);
    assert_eq!(channels(&rgb), vec![ONE, 0, ONE]);
    let mut hsv = Color::Hsv(Hsv::new(0, 0, 0));
    hsv.change_value(1, 2 * ONE);
    hsv.change_value(2, -1);
    assert_eq!(channels(&hsv), vec![0, ONE, 0]);
    let mut lab = Color::Oklab(Oklab::new(0, 0, 0));
    lab.change_value(0, 2 * ONE);
    lab.change_value(1, 500_000);
    lab.change_value(2, -500_000);
    assert_eq!(channels(&lab), vec![ONE, 400_000, -400_000]);
    let mut lch = Color::Oklch(Oklch::new(0, 0, 0));
    lch.change_value(0, -5);
    lch.change_value(1, 500_000);
    assert_eq!(channels(&lch), vec![0, 400_000, 0]);
    let mut cmyk = Color::Cmyk(Cmyk::new(0, 0, 0, 0));
    cmyk.change_value(3, i64::MAX);
    cmyk.change_value(0, i64::MIN);
    assert_eq!(channels(&cmyk), vec![0, 0, 0, ONE]);
}

#[test]
fn editing_one_channel_leaves_the_others() {
    for start in one_of_each() {
        for index in 0..start.channel_count() {
            let mut color = start;
            color.change_value(index, 50_000);
            let before = channels(&start);
            let after = channels(&color);
            for other in 0..start.channel_count() {
                if other == index {
                    assert_eq!(after[other], 50_000);
                } else {
                    assert_eq!(after[other], before[other]);
                }
            }
        }
    }
}

#[test]
fn editing_never_changes_the_live_space() {
    for start in one_of_each() {
        let mut color = start;
        color.change_value(0, 123_456);
        color.change_string(1, "0.25".to_string());
        color.change_string(2, "nonsense".to_string());
        color.convert_from_rgb([ONE, 0, 0]);
        assert_eq!(color.selection(), start.selection());
    }
}

#[test]
fn an_index_past_the_last_channel_changes_nothing() {
    for start in one_of_each() {
        let mut color = start;
        color.change_value(start.channel_count(), 500_000);
        color.change_value(usize::MAX, 500_000);
        color.change_string(start.channel_count(), "0.5".to_string());
        assert_eq!(channels(&color), channels(&start));
        assert_eq!(color.channel_value(start.channel_count()), None);
        assert_eq!(color.channel_range(start.channel_count()), None);
        assert_eq!(color.channel_name(start.channel_count()), None);
        assert_eq!(color.channel_precision(start.channel_count()), None);
        assert_eq!(color.channel_text(start.channel_count()), None);
    }
}

#[test]
fn change_string_with_malformed_text_changes_nothing() {
    let texts = [
        "", "abc", "-", "+", ".", "-.", "1.2.3", "1e5", "0x10", " 1", "1 ", "--1", "1,5", "NaN",
        "inf", "\u{ff11}", "1\u{e9}",
    ];
    for start in one_of_each() {
        for text in texts {
            for index in 0..start.channel_count() {
                let mut color = start;
                color.change_string(index, text.to_string());
                assert_eq!(channels(&color), channels(&start));
            }
        }
    }
}

#[test]
fn change_string_with_a_number_sets_the_channel() {
    let mut rgb = Color::default();
    rgb.change_string(0, "0.5".to_string());
    rgb.change_string(1, ".25".to_string());
    rgb.change_string(2, "1.".to_string());
    assert_eq!(channels(&rgb), vec![500_000, 250_000, ONE]);
    rgb.change_string(0, "+0.1234567".to_string());
    assert_eq!(rgb.channel_value(0), Some(123_456));
    rgb.change_string(0, "7".to_string());
    assert_eq!(rgb.channel_value(0), Some(ONE));
    rgb.change_string(0, "-7".to_string());
    assert_eq!(rgb.channel_value(0), Some(0));
    let mut hsv = Color::Hsv(Hsv::new(0, 0, 0));
    hsv.change_string(0, "370".to_string());
    assert_eq!(hsv.channel_value(0), Some(10 * ONE));
    hsv.change_string(0, "-90.5".to_string());
    assert_eq!(hsv.channel_value(0), Some(269_500_000));
    let mut lab = Color::Oklab(Oklab::new(0, 0, 0));
    lab.change_string(1, "-0.25".to_string());
    lab.change_string(2, "-0.75".to_string());
    assert_eq!(channels(&lab), vec![0, -250_000, -400_000]);
}

#[test]
fn default_to_hsv_edit_value_back_to_rgb() {
    let start = Color::default();
    let mut hsv = start.to_hsv().unwrap();
    assert_eq!(hsv.selection(), ColorSpaceCombo::Hsv);
    assert_eq!(channels(&hsv), vec![0, 0, 0]);
    hsv.change_value(2, ONE);
    assert_eq!(channels(&hsv), vec![0, 0, ONE]);
    let rgb = hsv.to_rgb().unwrap();
    assert_eq!(rgb.selection(), ColorSpaceCombo::Rgb);
    assert_eq!(channels(&rgb), vec![ONE, ONE, ONE]);
}

#[test]
fn hex_commit_on_an_hsv_colour() {
    let mut color = Color::Hsv(Hsv::new(200 * ONE, 300_000, 400_000));
    let bytes = parse("#ff0000").unwrap();
    let rgb = Rgb::from_bytes(bytes).to_rgb();
    assert_eq!(rgb, [ONE, 0, 0]);
    assert!(color.convert_from_rgb(rgb));
    assert_eq!(color.selection(), ColorSpaceCombo::Hsv);
    assert_eq!(channels(&color), vec![0, ONE, ONE]);
}

#[test]
fn convert_from_rgb_re_expresses_the_triple_in_the_live_space() {
    let mut rgb = Color::default();
    assert!(rgb.convert_from_rgb([2 * ONE, 500_000, -1]));
    assert_eq!(channels(&rgb), vec![ONE, 500_000, 0]);
    let mut cmyk = Color::Cmyk(Cmyk::new(0, 0, 0, 0));
    assert!(cmyk.convert_from_rgb([200_000, 400_000, 600_000]));
    assert_eq!(channels(&cmyk), vec![666_667, 333_333, 0, 400_000]);
}

#[test]
fn convert_from_rgb_leaves_a_perceptual_colour_unchanged() {
    let mut lab = Color::Oklab(Oklab::new(500_000, 100_000, -100_000));
    assert!(!lab.convert_from_rgb([ONE, 0, 0]));
    assert_eq!(channels(&lab), vec![500_000, 100_000, -100_000]);
    let mut lch = Color::Oklch(Oklch::new(500_000, 100_000, 90 * ONE));
    assert!(!lch.convert_from_rgb([ONE, 0, 0]));
    assert_eq!(channels(&lch), vec![500_000, 100_000, 90 * ONE]);
}

#[test]
fn channel_model_of_each_space() {
    let unit = ChannelRange { min: 0, max: ONE, wraps: false };
    let turn = ChannelRange { min: 0, max: TURN, wraps: true };
    let axis = ChannelRange { min: -400_000, max: 400_000, wraps: false };
    let chroma = ChannelRange { min: 0, max: 400_000, wraps: false };
    let expected: Vec<Vec<(&str, ChannelRange, usize)>> = vec![
        vec![("Red", unit, 3), ("Green", unit, 3), ("Blue", unit, 3)],
        vec![("Hue", turn, 1), ("Saturation", unit, 3), ("Value", unit, 3)],
        vec![("Lightness", unit, 3), ("a", axis, 3), ("b", axis, 3)],
        vec![("Lightness", unit, 3), ("Chroma", chroma, 3), ("Hue", turn, 1)],
        vec![("Cyan", unit, 3), ("Magenta", unit, 3), ("Yellow", unit, 3), ("Key", unit, 3)],
    ];
    for (color, model) in one_of_each().iter().zip(expected.iter()) {
        assert_eq!(color.channel_count(), model.len());
        for (index, (name, range, precision)) in model.iter().enumerate() {
            assert_eq!(color.channel_name(index), Some(*name));
            assert_eq!(color.channel_range(index), Some(*range));
            assert_eq!(color.channel_precision(index), Some(*precision));
        }
    }
}

#[test]
fn stored_channels_stay_in_range() {
    let extremes = [i64::MIN, -TURN, -1, 0, 1, ONE, TURN, i64::MAX];
    for start in one_of_each() {
        for index in 0..start.channel_count() {
            for value in extremes {
                let mut color = start;
                color.change_value(index, value);
                let range = color.channel_range(index).unwrap();
                let stored = color.channel_value(index).unwrap();
                assert!(range.min <= stored && stored <= range.max);
                if range.wraps {
                    assert!(stored < range.max);
                }
            }
        }
    }
}

#[test]
fn colour_spaces_are_offered_in_a_fixed_order() {
    let selections = ColorSpaceCombo::selections();
    let names = ["RGB", "HSV", "OKLAB", "OKLCH", "CMYK"];
    for (place, space) in selections.iter().enumerate() {
        assert_eq!(space.position(), place);
        assert_eq!(space.name(), names[place]);
    }
    for (color, place) in one_of_each().iter().zip(0..) {
        assert_eq!(color.selection().position(), place);
    }
}
