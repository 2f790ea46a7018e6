//! The text of a colour as it is handed to the clipboard, each colour space
//! in its natural units.

use vstd::prelude::*;
use vstd::string::StringExecFns;
use crate::color::{channel_precision_of, Color, ColorSpaceCombo};
use crate::decimal::{digits_of, fixed_text, push_fixed, push_number};
use crate::fixed::{div_round, round_div, scale, scaled, ONE, TURN};
use crate::rgb::{byte_of_channel, BYTE_MAX};

verus! {

/// The decimal places of a perceptual channel in clipboard text.
pub const PERCEPTUAL_PLACES: usize = 3;

/// What stands between two channels.
pub open spec fn separator() -> Seq<char> {
    seq![',', ' ']
}

/// A channel between 0 and `ONE` as a whole number from 0 to 255.
pub open spec fn byte_text(channel: int) -> Seq<char> {
    digits_of(byte_of_channel(channel) as nat)
}

/// A channel between 0 and `ONE` as a whole percentage with its sign.
pub open spec fn percent_text(channel: int) -> Seq<char> {
    digits_of(scaled(100, channel, ONE as int) as nat) + seq!['%']
}

/// A hue as whole degrees from 0 to 359; a hue that rounds up to a full
/// turn is written as 0.
pub open spec fn degrees_text(hue: int) -> Seq<char> {
    digits_of((round_div(hue, ONE as int) % 360) as nat)
}

/// A perceptual channel as a decimal with three places.
pub open spec fn perceptual_text(channel: int) -> Seq<char> {
    fixed_text(channel, PERCEPTUAL_PLACES as nat)
}

/// The clipboard text of the channels of a colour in `space`: RGB as three
/// whole numbers from 0 to 255; HSV as degrees and two percentages; OKLab as
/// three decimals; OKLCH as two decimals and degrees; CMYK as four
/// percentages. Channels are set apart by a comma and a space.
pub open spec fn clipboard_text(space: ColorSpaceCombo, c: Seq<int>) -> Seq<char> {
    match space {
        ColorSpaceCombo::Rgb => byte_text(c[0]) + separator() + byte_text(c[1]) + separator()
            + byte_text(c[2]),
        ColorSpaceCombo::Hsv => degrees_text(c[0]) + separator() + percent_text(c[1])
            + separator() + percent_text(c[2]),
        ColorSpaceCombo::Oklab => perceptual_text(c[0]) + separator() + perceptual_text(c[1])
            + separator() + perceptual_text(c[2]),
        ColorSpaceCombo::Oklch => perceptual_text(c[0]) + separator() + perceptual_text(c[1])
            + separator() + degrees_text(c[2]),
        ColorSpaceCombo::Cmyk => percent_text(c[0]) + separator() + percent_text(c[1])
            + separator() + percent_text(c[2]) + separator() + percent_text(c[3]),
    }
}

/// The text of three eight-bit channels: three whole numbers, set apart as
/// the channels of a colour are.
pub open spec fn srgb_text_of(srgb: Seq<u8>) -> Seq<char> {
    digits_of(srgb[0] as nat) + separator() + digits_of(srgb[1] as nat) + separator() + digits_of(
        srgb[2] as nat,
    )
}

/// Writes three eight-bit channels as three whole numbers.
pub fn srgb_text(srgb: [u8; 3]) -> (res: String)
    ensures
        res@ == srgb_text_of(srgb@),
{
    let mut text = String::new();
    push_number(&mut text, srgb[0] as u64);
    push_separator(&mut text);
    push_number(&mut text, srgb[1] as u64);
    push_separator(&mut text);
    push_number(&mut text, srgb[2] as u64);
    text
}

/// Appends what stands between two channels.
fn push_separator(text: &mut String)
    ensures
        final(text)@ == old(text)@ + separator(),
{
    proof {
        reveal_strlit(", ");
    }
    text.append(", ");
}

/// Appends a channel as a whole number from 0 to 255.
fn push_byte(text: &mut String, channel: i64)
    requires
        0 <= channel <= ONE,
    ensures
        final(text)@ == old(text)@ + byte_text(channel as int),
{
    push_number(text, scale(BYTE_MAX, channel, ONE) as u64);
}

/// Appends a channel as a whole percentage with its sign.
fn push_percent(text: &mut String, channel: i64)
    requires
        0 <= channel <= ONE,
    ensures
        final(text)@ == old(text)@ + percent_text(channel as int),
{
    proof {
        reveal_strlit("%");
    }
    push_number(text, scale(100, channel, ONE) as u64);
    text.append("%");
}

/// Appends a hue as whole degrees.
fn push_degrees(text: &mut String, hue: i64)
    requires
        0 <= hue < TURN,
    ensures
        final(text)@ == old(text)@ + degrees_text(hue as int),
{
    let rounded: i64 = div_round(hue, ONE);
    push_number(text, (rounded % 360) as u64);
}

impl Color {
    /// The text of one channel as it is displayed: its value as a decimal
    /// with the channel's precision, a hue in degrees; or nothing for an
    /// index past the last channel.
    pub fn channel_text(&self, index: usize) -> (res: Option<String>)
        ensures
            res is Some <==> index < self.channels().len(),
            res matches Some(text) ==> text@ == fixed_text(
                self.channels()[index as int],
                channel_precision_of(self.space(), index as int),
            ),
    {
        self.known_wf();
        match (self.channel_value(index), self.channel_precision(index)) {
            (Some(value), Some(places)) => {
                proof {
                    self.lemma_channels_in_range(index as int);
                }
                let mut text = String::new();
                push_fixed(&mut text, value, places);
                Some(text)
            },
            _ => None,
        }
    }

    /// The text of the colour for the clipboard, in the natural units of
    /// the live colour space.
    pub fn copy_to_clipboard(&self) -> (res: String)
        ensures
            res@ == clipboard_text(self.space(), self.channels()),
    {
        let mut text = String::new();
        match self {
            Color::Rgb(x) => {
                push_byte(&mut text, x.red());
                push_separator(&mut text);
                push_byte(&mut text, x.green());
                push_separator(&mut text);
                push_byte(&mut text, x.blue());
            },
            Color::Hsv(x) => {
                push_degrees(&mut text, x.hue());
                push_separator(&mut text);
                push_percent(&mut text, x.saturation());
                push_separator(&mut text);
                push_percent(&mut text, x.value());
            },
            Color::Oklab(x) => {
                push_fixed(&mut text, x.lightness(), PERCEPTUAL_PLACES);
                push_separator(&mut text);
                push_fixed(&mut text, x.a(), PERCEPTUAL_PLACES);
                push_separator(&mut text);
                push_fixed(&mut text, x.b(), PERCEPTUAL_PLACES);
            },
            Color::Oklch(x) => {
                push_fixed(&mut text, x.lightness(), PERCEPTUAL_PLACES);
                push_separator(&mut text);
                push_fixed(&mut text, x.chroma(), PERCEPTUAL_PLACES);
                push_separator(&mut text);
                push_degrees(&mut text, x.hue());
            },
            Color::Cmyk(x) => {
                push_percent(&mut text, x.cyan());
                push_separator(&mut text);
                push_percent(&mut text, x.magenta());
                push_separator(&mut text);
                push_percent(&mut text, x.yellow());
                push_separator(&mut text);
                push_percent(&mut text, x.key());
            },
        }
        text
    }
}

} // verus!
