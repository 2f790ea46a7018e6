//! The colour value: one of five representations, exactly one of which is
//! live at a time, with its channel model, its conversions through the RGB
//! pivot and its single-channel edits.

use vstd::prelude::*;
use crate::decimal::{is_digit_char, parse_decimal, parsed_text};
use crate::cmyk::{cmyk_of_rgb, lemma_rgb_cmyk_round_trip, rgb_of_cmyk, Cmyk};
use crate::fixed::{clamped, unit_triple, wrapped, ONE, TURN};
use crate::hsv::{hsv_of_rgb, lemma_rgb_hsv_round_trip, rgb_of_hsv, Hsv};
use crate::oklab::{Oklab, AXIS_MAX, AXIS_MIN};
use crate::oklch::{Oklch, CHROMA_MAX};
use crate::rgb::Rgb;

verus! {

/// The five colour spaces, as a choice without values.
#[derive(Clone, Copy, Debug, PartialEq, Eq, Structural)]
pub enum ColorSpaceCombo {
    Rgb,
    Hsv,
    Oklab,
    Oklch,
    Cmyk,
}

/// The name of a colour space.
pub open spec fn space_name_of(space: ColorSpaceCombo) -> Seq<char> {
    match space {
        ColorSpaceCombo::Rgb => "RGB"@,
        ColorSpaceCombo::Hsv => "HSV"@,
        ColorSpaceCombo::Oklab => "OKLAB"@,
        ColorSpaceCombo::Oklch => "OKLCH"@,
        ColorSpaceCombo::Cmyk => "CMYK"@,
    }
}

/// The place of a colour space in the order in which the spaces are
/// offered.
pub open spec fn space_position_of(space: ColorSpaceCombo) -> int {
    match space {
        ColorSpaceCombo::Rgb => 0,
        ColorSpaceCombo::Hsv => 1,
        ColorSpaceCombo::Oklab => 2,
        ColorSpaceCombo::Oklch => 3,
        ColorSpaceCombo::Cmyk => 4,
    }
}

impl ColorSpaceCombo {
    /// The colour spaces in the order in which they are offered.
    pub fn selections() -> (res: [ColorSpaceCombo; 5])
        ensures
            forall|i: int| 0 <= i < 5 ==> space_position_of(#[trigger] res[i]) == i,
    {
        [
            ColorSpaceCombo::Rgb,
            ColorSpaceCombo::Hsv,
            ColorSpaceCombo::Oklab,
            ColorSpaceCombo::Oklch,
            ColorSpaceCombo::Cmyk,
        ]
    }

    /// The place of the colour space among `selections`.
    pub fn position(&self) -> (res: usize)
        ensures
            res == space_position_of(*self),
            res < 5,
    {
        match self {
            ColorSpaceCombo::Rgb => 0,
            ColorSpaceCombo::Hsv => 1,
            ColorSpaceCombo::Oklab => 2,
            ColorSpaceCombo::Oklch => 3,
            ColorSpaceCombo::Cmyk => 4,
        }
    }

    /// The name under which the colour space is offered.
    pub fn name(&self) -> (res: &'static str)
        ensures
            res@ == space_name_of(*self),
    {
        match self {
            ColorSpaceCombo::Rgb => "RGB",
            ColorSpaceCombo::Hsv => "HSV",
            ColorSpaceCombo::Oklab => "OKLAB",
            ColorSpaceCombo::Oklch => "OKLCH",
            ColorSpaceCombo::Cmyk => "CMYK",
        }
    }
}

/// What a channel accepts: its bounds, and whether a value beyond them
/// wraps round, as a hue does, or stops at the bound.
#[derive(Clone, Copy, Debug, PartialEq, Eq, Structural)]
pub struct ChannelRange {
    pub min: i64,
    pub max: i64,
    pub wraps: bool,
}

/// A colour in one of five representations.
#[derive(Clone, Copy, Debug)]
pub enum Color {
    Rgb(Rgb),
    Hsv(Hsv),
    Oklab(Oklab),
    Oklch(Oklch),
    Cmyk(Cmyk),
}

/// The number of channels of a colour space.
pub open spec fn channel_count_of(space: ColorSpaceCombo) -> int {
    if space == ColorSpaceCombo::Cmyk {
        4
    } else {
        3
    }
}

/// The range of channel `index` of a colour space, for an index below the
/// number of its channels.
pub open spec fn channel_range_of(space: ColorSpaceCombo, index: int) -> ChannelRange {
    match space {
        ColorSpaceCombo::Rgb => ChannelRange { min: 0, max: ONE, wraps: false },
        ColorSpaceCombo::Hsv => if index == 0 {
            ChannelRange { min: 0, max: TURN, wraps: true }
        } else {
            ChannelRange { min: 0, max: ONE, wraps: false }
        },
        ColorSpaceCombo::Oklab => if index == 0 {
            ChannelRange { min: 0, max: ONE, wraps: false }
        } else {
            ChannelRange { min: AXIS_MIN, max: AXIS_MAX, wraps: false }
        },
        ColorSpaceCombo::Oklch => if index == 0 {
            ChannelRange { min: 0, max: ONE, wraps: false }
        } else if index == 1 {
            ChannelRange { min: 0, max: CHROMA_MAX, wraps: false }
        } else {
            ChannelRange { min: 0, max: TURN, wraps: true }
        },
        ColorSpaceCombo::Cmyk => ChannelRange { min: 0, max: ONE, wraps: false },
    }
}

/// The name of channel `index` of a colour space, for an index below the
/// number of its channels.
pub open spec fn channel_name_of(space: ColorSpaceCombo, index: int) -> Seq<char> {
    match space {
        ColorSpaceCombo::Rgb => if index == 0 {
            "Red"@
        } else if index == 1 {
            "Green"@
        } else {
            "Blue"@
        },
        ColorSpaceCombo::Hsv => if index == 0 {
            "Hue"@
        } else if index == 1 {
            "Saturation"@
        } else {
            "Value"@
        },
        ColorSpaceCombo::Oklab => if index == 0 {
            "Lightness"@
        } else if index == 1 {
            "a"@
        } else {
            "b"@
        },
        ColorSpaceCombo::Oklch => if index == 0 {
            "Lightness"@
        } else if index == 1 {
            "Chroma"@
        } else {
            "Hue"@
        },
        ColorSpaceCombo::Cmyk => if index == 0 {
            "Cyan"@
        } else if index == 1 {
            "Magenta"@
        } else if index == 2 {
            "Yellow"@
        } else {
            "Key"@
        },
    }
}

/// The decimal places with which a channel is displayed: one for a hue,
/// which is shown in degrees, and three for every other channel.
pub open spec fn channel_precision_of(space: ColorSpaceCombo, index: int) -> nat {
    if channel_range_of(space, index).wraps {
        1
    } else {
        3
    }
}

/// A value brought into a channel's range: wrapped round the circle where
/// the channel wraps, which only a hue does, and clamped where it does not.
pub open spec fn normalized(range: ChannelRange, value: int) -> int {
    if range.wraps {
        wrapped(value, TURN as int)
    } else {
        clamped(value, range.min as int, range.max as int)
    }
}

/// The channels that result from setting channel `index` to `value`,
/// brought into the channel's range. An index past the last channel changes
/// nothing.
pub open spec fn edited_channels(
    space: ColorSpaceCombo,
    channels: Seq<int>,
    index: int,
    value: int,
) -> Seq<int> {
    if 0 <= index < channels.len() {
        channels.update(index, normalized(channel_range_of(space, index), value))
    } else {
        channels
    }
}

/// The channels of an RGB pivot re-expressed in `space`, where exact
/// arithmetic can express them: in RGB, HSV and CMYK.
pub open spec fn channels_of_rgb(space: ColorSpaceCombo, rgb: (int, int, int)) -> Option<Seq<int>> {
    match space {
        ColorSpaceCombo::Rgb => Some(seq![rgb.0, rgb.1, rgb.2]),
        ColorSpaceCombo::Hsv => {
            let t = hsv_of_rgb(rgb.0, rgb.1, rgb.2);
            Some(seq![t.0, t.1, t.2])
        },
        ColorSpaceCombo::Cmyk => {
            let q = cmyk_of_rgb(rgb.0, rgb.1, rgb.2);
            Some(seq![q.0, q.1, q.2, q.3])
        },
        _ => None,
    }
}

/// The RGB pivot of the channels of a colour in `space`, where exact
/// arithmetic can express it.
pub open spec fn rgb_of_channels(space: ColorSpaceCombo, channels: Seq<int>) -> Option<
    (int, int, int),
> {
    match space {
        ColorSpaceCombo::Rgb => Some((channels[0], channels[1], channels[2])),
        ColorSpaceCombo::Hsv => Some(rgb_of_hsv(channels[0], channels[1], channels[2])),
        ColorSpaceCombo::Cmyk => Some(
            rgb_of_cmyk(channels[0], channels[1], channels[2], channels[3]),
        ),
        _ => None,
    }
}

/// An RGB triple with each channel clamped to between 0 and `ONE`.
pub open spec fn clamped_rgb(rgb: [i64; 3]) -> (int, int, int) {
    (
        clamped(rgb[0] as int, 0, ONE as int),
        clamped(rgb[1] as int, 0, ONE as int),
        clamped(rgb[2] as int, 0, ONE as int),
    )
}

impl Color {
    /// The colour space that is live.
    pub open spec fn space(self) -> ColorSpaceCombo {
        match self {
            Color::Rgb(_) => ColorSpaceCombo::Rgb,
            Color::Hsv(_) => ColorSpaceCombo::Hsv,
            Color::Oklab(_) => ColorSpaceCombo::Oklab,
            Color::Oklch(_) => ColorSpaceCombo::Oklch,
            Color::Cmyk(_) => ColorSpaceCombo::Cmyk,
        }
    }

    /// The channels of the live representation, in order.
    pub open spec fn channels(self) -> Seq<int> {
        match self {
            Color::Rgb(x) => seq![x@.0, x@.1, x@.2],
            Color::Hsv(x) => seq![x@.0, x@.1, x@.2],
            Color::Oklab(x) => seq![x@.0, x@.1, x@.2],
            Color::Oklch(x) => seq![x@.0, x@.1, x@.2],
            Color::Cmyk(x) => seq![x@.0, x@.1, x@.2, x@.3],
        }
    }

    /// Whether the live representation holds every channel in its range.
    /// Every colour that executable code can hold does.
    pub open spec fn wf(self) -> bool {
        match self {
            Color::Rgb(x) => x.wf(),
            Color::Hsv(x) => x.wf(),
            Color::Oklab(x) => x.wf(),
            Color::Oklch(x) => x.wf(),
            Color::Cmyk(x) => x.wf(),
        }
    }

    /// The RGB pivot of the colour, where exact arithmetic can express it.
    pub open spec fn pivot(self) -> Option<(int, int, int)> {
        rgb_of_channels(self.space(), self.channels())
    }

    /// Each channel of a well-formed colour lies in its channel's range, and
    /// below its upper bound where the channel wraps.
    pub proof fn lemma_channels_in_range(self, index: int)
        requires
            self.wf(),
            0 <= index < channel_count_of(self.space()),
        ensures
            self.channels().len() == channel_count_of(self.space()),
            channel_range_of(self.space(), index).min <= self.channels()[index]
                <= channel_range_of(self.space(), index).max,
            channel_range_of(self.space(), index).wraps ==> self.channels()[index]
                < channel_range_of(self.space(), index).max,
    {
        match self {
            Color::Rgb(x) => x.lemma_in_range(),
            Color::Hsv(x) => x.lemma_in_range(),
            Color::Oklab(x) => x.lemma_in_range(),
            Color::Oklch(x) => x.lemma_in_range(),
            Color::Cmyk(x) => x.lemma_in_range(),
        }
    }

    /// Every colour that executable code holds is well-formed.
    pub(crate) fn known_wf(&self)
        ensures
            self.wf(),
    {
        match self {
            Color::Rgb(x) => {
                proof {
                    use_type_invariant(x);
                }
            },
            Color::Hsv(x) => {
                proof {
                    use_type_invariant(x);
                }
            },
            Color::Oklab(x) => {
                proof {
                    use_type_invariant(x);
                }
            },
            Color::Oklch(x) => {
                proof {
                    use_type_invariant(x);
                }
            },
            Color::Cmyk(x) => {
                proof {
                    use_type_invariant(x);
                }
            },
        }
    }

    /// Which colour space is live.
    pub fn selection(&self) -> (res: ColorSpaceCombo)
        ensures
            res == self.space(),
    {
        match self {
            Color::Rgb(_) => ColorSpaceCombo::Rgb,
            Color::Hsv(_) => ColorSpaceCombo::Hsv,
            Color::Oklab(_) => ColorSpaceCombo::Oklab,
            Color::Oklch(_) => ColorSpaceCombo::Oklch,
            Color::Cmyk(_) => ColorSpaceCombo::Cmyk,
        }
    }

    /// The number of channels of the live representation.
    pub fn channel_count(&self) -> (res: usize)
        ensures
            res == channel_count_of(self.space()),
            res == self.channels().len(),
    {
        match self {
            Color::Cmyk(_) => 4,
            _ => 3,
        }
    }

    /// The range of one channel, or nothing for an index past the last
    /// channel.
    pub fn channel_range(&self, index: usize) -> (res: Option<ChannelRange>)
        ensures
            res == if index < channel_count_of(self.space()) {
                Some(channel_range_of(self.space(), index as int))
            } else {
                None
            },
    {
        if index >= self.channel_count() {
            return None;
        }
        let unit = ChannelRange { min: 0, max: ONE, wraps: false };
        let turn = ChannelRange { min: 0, max: TURN, wraps: true };
        Some(
            match self {
                Color::Rgb(_) => unit,
                Color::Hsv(_) => if index == 0 {
                    turn
                } else {
                    unit
                },
                Color::Oklab(_) => if index == 0 {
                    unit
                } else {
                    ChannelRange { min: AXIS_MIN, max: AXIS_MAX, wraps: false }
                },
                Color::Oklch(_) => if index == 0 {
                    unit
                } else if index == 1 {
                    ChannelRange { min: 0, max: CHROMA_MAX, wraps: false }
                } else {
                    turn
                },
                Color::Cmyk(_) => unit,
            },
        )
    }

    /// The name of one channel, or nothing for an index past the last
    /// channel.
    pub fn channel_name(&self, index: usize) -> (res: Option<&'static str>)
        ensures
            res is Some <==> index < channel_count_of(self.space()),
            res matches Some(name) ==> name@ == channel_name_of(self.space(), index as int),
    {
        if index >= self.channel_count() {
            return None;
        }
        Some(
            match self {
                Color::Rgb(_) => if index == 0 {
                    "Red"
                } else if index == 1 {
                    "Green"
                } else {
                    "Blue"
                },
                Color::Hsv(_) => if index == 0 {
                    "Hue"
                } else if index == 1 {
                    "Saturation"
                } else {
                    "Value"
                },
                Color::Oklab(_) => if index == 0 {
                    "Lightness"
                } else if index == 1 {
                    "a"
                } else {
                    "b"
                },
                Color::Oklch(_) => if index == 0 {
                    "Lightness"
                } else if index == 1 {
                    "Chroma"
                } else {
                    "Hue"
                },
                Color::Cmyk(_) => if index == 0 {
                    "Cyan"
                } else if index == 1 {
                    "Magenta"
                } else if index == 2 {
                    "Yellow"
                } else {
                    "Key"
                },
            },
        )
    }

    /// The decimal places with which one channel is displayed, or nothing
    /// for an index past the last channel.
    pub fn channel_precision(&self, index: usize) -> (res: Option<usize>)
        ensures
            res == if index < channel_count_of(self.space()) {
                Some(channel_precision_of(self.space(), index as int) as usize)
            } else {
                None
            },
    {
        match self.channel_range(index) {
            Some(range) => if range.wraps {
                Some(1)
            } else {
                Some(3)
            },
            None => None,
        }
    }

    /// The value of one channel, or nothing for an index past the last
    /// channel.
    pub fn channel_value(&self, index: usize) -> (res: Option<i64>)
        ensures
            res matches Some(v) ==> index < self.channels().len() && v == self.channels()[
                index as int
            ],
            res is Some <==> index < self.channels().len(),
    {
        match self {
            Color::Rgb(x) => if index == 0 {
                Some(x.red())
            } else if index == 1 {
                Some(x.green())
            } else if index == 2 {
                Some(x.blue())
            } else {
                None
            },
            Color::Hsv(x) => if index == 0 {
                Some(x.hue())
            } else if index == 1 {
                Some(x.saturation())
            } else if index == 2 {
                Some(x.value())
            } else {
                None
            },
            Color::Oklab(x) => if index == 0 {
                Some(x.lightness())
            } else if index == 1 {
                Some(x.a())
            } else if index == 2 {
                Some(x.b())
            } else {
                None
            },
            Color::Oklch(x) => if index == 0 {
                Some(x.lightness())
            } else if index == 1 {
                Some(x.chroma())
            } else if index == 2 {
                Some(x.hue())
            } else {
                None
            },
            Color::Cmyk(x) => if index == 0 {
                Some(x.cyan())
            } else if index == 1 {
                Some(x.magenta())
            } else if index == 2 {
                Some(x.yellow())
            } else if index == 3 {
                Some(x.key())
            } else {
                None
            },
        }
    }

    /// The RGB pivot of the colour, each channel between 0 and `ONE`; or
    /// nothing where the live representation is OKLab or OKLCH, whose pivot
    /// exact arithmetic cannot express.
    pub fn current_rgb(&self) -> (res: Option<[i64; 3]>)
        ensures
            res is Some <==> self.pivot() is Some,
            res matches Some(rgb) ==> self.pivot() == Some(
                (rgb[0] as int, rgb[1] as int, rgb[2] as int),
            ) && unit_triple((rgb[0] as int, rgb[1] as int, rgb[2] as int)),
    {
        match self {
            Color::Rgb(x) => Some(x.to_rgb()),
            Color::Hsv(x) => Some(x.to_rgb()),
            Color::Cmyk(x) => Some(x.to_rgb()),
            _ => None,
        }
    }

    /// The colour that an RGB pivot is in `space`, each channel of the
    /// pivot clamped first; or nothing where `space` is OKLab or OKLCH.
    pub fn from_rgb(space: ColorSpaceCombo, rgb: [i64; 3]) -> (res: Option<Color>)
        ensures
            res is Some <==> channels_of_rgb(space, clamped_rgb(rgb)) is Some,
            res matches Some(c) ==> c.wf() && c.space() == space && Some(c.channels())
                == channels_of_rgb(space, clamped_rgb(rgb)),
    {
        match space {
            ColorSpaceCombo::Rgb => Some(Color::Rgb(Rgb::from_rgb(rgb))),
            ColorSpaceCombo::Hsv => Some(Color::Hsv(Hsv::from_rgb(rgb))),
            ColorSpaceCombo::Cmyk => Some(Color::Cmyk(Cmyk::from_rgb(rgb))),
            _ => None,
        }
    }

    /// The colour re-expressed in RGB through its pivot; or nothing where
    /// the live representation is OKLab or OKLCH.
    pub fn to_rgb(&self) -> (res: Option<Color>)
        ensures
            res is Some <==> self.pivot() is Some,
            res matches Some(c) ==> c.wf() && c.space() == ColorSpaceCombo::Rgb && Some(
                c.channels(),
            ) == channels_of_rgb(ColorSpaceCombo::Rgb, self.pivot().unwrap()),
    {
        match self.current_rgb() {
            Some(rgb) => Some(Color::Rgb(Rgb::from_rgb(rgb))),
            None => None,
        }
    }

    /// The colour re-expressed in HSV through its RGB pivot; or nothing
    /// where the live representation is OKLab or OKLCH.
    pub fn to_hsv(&self) -> (res: Option<Color>)
        ensures
            res is Some <==> self.pivot() is Some,
            res matches Some(c) ==> c.wf() && c.space() == ColorSpaceCombo::Hsv && Some(
                c.channels(),
            ) == channels_of_rgb(ColorSpaceCombo::Hsv, self.pivot().unwrap()),
    {
        match self.current_rgb() {
            Some(rgb) => Some(Color::Hsv(Hsv::from_rgb(rgb))),
            None => None,
        }
    }

    /// The colour re-expressed in CMYK through its RGB pivot; or nothing
    /// where the live representation is OKLab or OKLCH.
    pub fn to_cmyk(&self) -> (res: Option<Color>)
        ensures
            res is Some <==> self.pivot() is Some,
            res matches Some(c) ==> c.wf() && c.space() == ColorSpaceCombo::Cmyk && Some(
                c.channels(),
            ) == channels_of_rgb(ColorSpaceCombo::Cmyk, self.pivot().unwrap()),
    {
        match self.current_rgb() {
            Some(rgb) => Some(Color::Cmyk(Cmyk::from_rgb(rgb))),
            None => None,
        }
    }

    /// Sets one channel of the live representation to `value`, brought into
    /// the channel's range: a hue wraps round the circle, every other
    /// channel is clamped. The other channels and the live colour space stay
    /// as they are, and an index past the last channel changes nothing.
    pub fn change_value(&mut self, index: usize, value: i64)
        ensures
            final(self).wf(),
            final(self).space() == old(self).space(),
            final(self).channels() == edited_channels(
                old(self).space(),
                old(self).channels(),
                index as int,
                value as int,
            ),
    {
        match self {
            Color::Rgb(x) => {
                x.change_value(index, value);
            },
            Color::Hsv(x) => {
                x.change_value(index, value);
            },
            Color::Oklab(x) => {
                x.change_value(index, value);
            },
            Color::Oklch(x) => {
                x.change_value(index, value);
            },
            Color::Cmyk(x) => {
                x.change_value(index, value);
            },
        }
    }

    /// Sets one channel from what a user typed. Text that is a plain decimal
    /// is read in millionths and set as `change_value` sets it. Any other
    /// text, the empty text and a lone sign among it, leaves the colour as
    /// it was.
    pub fn change_string(&mut self, index: usize, text: String)
        ensures
            final(self).wf(),
            final(self).space() == old(self).space(),
            final(self).channels() == match parsed_text(text@) {
                Some(value) => edited_channels(
                    old(self).space(),
                    old(self).channels(),
                    index as int,
                    value,
                ),
                None => old(self).channels(),
            },
            parsed_text(text@) is None ==> *final(self) == *old(self),
            (forall|i: int| 0 <= i < text@.len() ==> !is_digit_char(#[trigger] text@[i]))
                ==> *final(self) == *old(self),
    {
        self.known_wf();
        match parse_decimal(text.as_str()) {
            Some(value) => self.change_value(index, value),
            None => {},
        }
    }

    /// Replaces the channels of the live representation by those of an RGB
    /// triple, each channel of the triple clamped first, and says whether it
    /// did. The live colour space stays as it is. Where it is OKLab or
    /// OKLCH the colour is left unchanged.
    pub fn convert_from_rgb(&mut self, rgb: [i64; 3]) -> (done: bool)
        ensures
            final(self).wf(),
            final(self).space() == old(self).space(),
            done <==> channels_of_rgb(old(self).space(), clamped_rgb(rgb)) is Some,
            done ==> Some(final(self).channels()) == channels_of_rgb(
                old(self).space(),
                clamped_rgb(rgb),
            ),
            !done ==> *final(self) == *old(self),
    {
        self.known_wf();
        match Color::from_rgb(self.selection(), rgb) {
            Some(c) => {
                *self = c;
                true
            },
            None => false,
        }
    }
}

impl Default for Color {
    /// Black, in RGB.
    fn default() -> (res: Color)
        ensures
            res.wf(),
            res.space() == ColorSpaceCombo::Rgb,
            res.channels() == seq![0int, 0int, 0int],
    {
        Color::Rgb(Rgb::new(0, 0, 0))
    }
}

/// Re-expressing a valid RGB pivot in another colour space and taking the
/// pivot of the result gives the same pivot again, exactly, for each colour
/// space that exact arithmetic can express.
pub proof fn lemma_pivot_round_trip(space: ColorSpaceCombo, rgb: (int, int, int))
    requires
        unit_triple(rgb),
        channels_of_rgb(space, rgb) is Some,
    ensures
        rgb_of_channels(space, channels_of_rgb(space, rgb).unwrap()) == Some(rgb),
{
    lemma_rgb_hsv_round_trip(rgb.0, rgb.1, rgb.2);
    lemma_rgb_cmyk_round_trip(rgb.0, rgb.1, rgb.2);
}

} // verus!
