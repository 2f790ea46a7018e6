//! The colour picker as a state machine: a list of colours and a few
//! switches, a message that asks for a change, and the effect that the
//! caller is to carry out.

use vstd::prelude::*;
use crate::clipboard::clipboard_text;
use crate::color::{
    channels_of_rgb, clamped_rgb, edited_channels, Color, ColorSpaceCombo,
};
use crate::decimal::parsed_text;
use crate::hexcode::{encode, encoded, parse, parsed_hex};
use crate::rgb::{channel_of_byte, Rgb};

verus! {

/// An edit of one channel of one colour.
#[derive(Clone, Debug)]
pub enum ColorSpaceMessage {
    /// A number from a slider, in millionths.
    ChangeValue { index: usize, value: i64 },
    /// Text from an input field.
    ChangeString { index: usize, string: String },
}

/// The modifier keys that are held down.
#[derive(Clone, Copy, Debug, PartialEq, Eq, Structural)]
pub struct Modifiers {
    pub control: bool,
    pub shift: bool,
    pub alt: bool,
    pub logo: bool,
}

/// A key: one that writes a character, or any other.
#[derive(Clone, Copy, Debug, PartialEq, Eq, Structural)]
pub enum Key {
    Character(char),
    Other,
}

/// A keyboard shortcut: a character and the modifier keys held with it.
#[derive(Clone, Copy, Debug, PartialEq, Eq, Structural)]
pub struct KeyBind {
    pub modifiers: Modifiers,
    pub key: char,
}

/// What a menu entry or a shortcut asks for.
#[derive(Clone, Copy, Debug, PartialEq, Eq, Structural)]
pub enum Action {
    ToggleGraphs,
    ToggleExpanded,
    About,
}

/// What the picker is asked to do.
#[derive(Clone, Debug)]
pub enum Message {
    /// Nothing to do.
    Nothing,
    ColorSpace { index: usize, message: ColorSpaceMessage },
    ChangeColorSpace { index: usize, selected: ColorSpaceCombo },
    AddSpace,
    RemoveSpace(usize),
    EditHex { space: usize, hex: String },
    SubmitHex(usize),
    ToggleGraphs,
    ToggleExpanded,
    ToggleAboutPage,
    LaunchUrl(String),
    CopyToClipboard(usize),
    PickScreenRequest(usize),
    PickScreenResponse(usize, [i64; 3]),
    Key(Key, Modifiers),
    /// The colour at `index` as the caller derived it, in answer to
    /// `Effect::Perceptual`.
    Derived { index: usize, color: Color },
}

/// What the caller is to carry out after an update.
#[derive(Clone, Debug)]
pub enum Effect {
    /// Nothing to carry out.
    Nothing,
    /// Put the text on the clipboard.
    WriteClipboard(String),
    /// Open the address with the system's handler.
    LaunchUrl(String),
    /// Ask the desktop for a colour picked from the screen, and answer with
    /// `Message::PickScreenResponse` for the same index.
    PickScreen(usize),
    /// Derive the colour at `index` in the colour space `target`, which
    /// needs the perceptual transform: from the RGB triple where one is
    /// given, else from the colour as it stands. Answer with
    /// `Message::Derived`.
    Perceptual { index: usize, target: ColorSpaceCombo, rgb: Option<[i64; 3]> },
}

/// The code of a character, with the upper-case ASCII letters folded onto
/// the lower-case ones.
pub open spec fn folded(c: char) -> int {
    if 65 <= c as int <= 90 {
        c as int + 32
    } else {
        c as int
    }
}

/// The code of a character, folded to lower case.
fn fold(c: char) -> (res: u32)
    ensures
        res == folded(c),
{
    let n: u32 = c as u32;
    if 65 <= n && n <= 90 {
        n + 32
    } else {
        n
    }
}

impl KeyBind {
    /// Whether a key press is this shortcut: the same character, whatever
    /// its case, and exactly the same modifier keys.
    pub open spec fn matched_by(self, modifiers: Modifiers, key: Key) -> bool {
        modifiers == self.modifiers && (key matches Key::Character(c) && folded(c) == folded(
            self.key,
        ))
    }

    /// Whether a key press is this shortcut.
    pub fn matches(&self, modifiers: Modifiers, key: Key) -> (res: bool)
        ensures
            res == self.matched_by(modifiers, key),
    {
        match key {
            Key::Character(c) => fold(c) == fold(self.key) && modifiers == self.modifiers,
            Key::Other => false,
        }
    }
}

impl Action {
    /// The message that carries out the action.
    pub fn message(&self) -> (res: Message)
        ensures
            *self == Action::ToggleGraphs ==> res is ToggleGraphs,
            *self == Action::ToggleExpanded ==> res is ToggleExpanded,
            *self == Action::About ==> res is ToggleAboutPage,
    {
        match self {
            Action::ToggleGraphs => Message::ToggleGraphs,
            Action::ToggleExpanded => Message::ToggleExpanded,
            Action::About => Message::ToggleAboutPage,
        }
    }
}

/// The picker: the colours it shows, which of them a hexadecimal text is
/// being typed for, and its switches.
#[derive(Debug)]
pub struct ColorPicker {
    /// The colours, in the order they are shown.
    pub spaces: Vec<Color>,
    /// The colour that a copy shortcut copies.
    pub last_edited: usize,
    /// The hexadecimal text being typed, with the index of its colour. It
    /// is kept apart from the colour, which only a complete text changes.
    pub hex_edit: Option<(usize, String)>,
    /// Whether the graphs are shown.
    pub show_graphs: bool,
    /// Whether the expanded layout is shown.
    pub expanded: bool,
    /// Whether the page about the program is shown.
    pub show_context: bool,
    /// The keyboard shortcuts, the first that matches a key press winning.
    pub keybinds: Vec<(KeyBind, Action)>,
}

/// The shortcuts a new picker has: control with G for the graphs, control
/// with E for the expanded layout.
pub open spec fn default_keybinds() -> Seq<(KeyBind, Action)> {
    let control = Modifiers { control: true, shift: false, alt: false, logo: false };
    seq![
        (KeyBind { modifiers: control, key: 'g' }, Action::ToggleGraphs),
        (KeyBind { modifiers: control, key: 'e' }, Action::ToggleExpanded),
    ]
}

/// The action of the first shortcut from `from` on that a key press
/// matches, if one does.
pub open spec fn bound_action(
    keybinds: Seq<(KeyBind, Action)>,
    from: int,
    modifiers: Modifiers,
    key: Key,
) -> Option<Action>
    decreases keybinds.len() - from,
{
    if from < 0 || from >= keybinds.len() {
        None
    } else if keybinds[from].0.matched_by(modifiers, key) {
        Some(keybinds[from].1)
    } else {
        bound_action(keybinds, from + 1, modifiers, key)
    }
}

/// The RGB triple that three bytes stand for.
pub open spec fn widened(bytes: Seq<u8>) -> (int, int, int) {
    (
        channel_of_byte(bytes[0] as int),
        channel_of_byte(bytes[1] as int),
        channel_of_byte(bytes[2] as int),
    )
}

/// The channels of a colour re-expressed in `target` through its RGB pivot,
/// where exact arithmetic can express both steps.
pub open spec fn reexpressed(color: Color, target: ColorSpaceCombo) -> Option<Seq<int>> {
    match color.pivot() {
        Some(rgb) => channels_of_rgb(target, rgb),
        None => None,
    }
}

/// Whether `post` holds the colours of `pre` but for the one at `index`,
/// which is well-formed and holds `channels` in `space`.
pub open spec fn replaced_at(
    pre: Seq<Color>,
    post: Seq<Color>,
    index: int,
    space: ColorSpaceCombo,
    channels: Seq<int>,
) -> bool {
    &&& 0 <= index < pre.len()
    &&& post.len() == pre.len()
    &&& forall|j: int| 0 <= j < pre.len() && j != index ==> post[j] == pre[j]
    &&& post[index].wf()
    &&& post[index].space() == space
    &&& post[index].channels() == channels
}

/// Whether `post` differs from `pre` in nothing but, perhaps, its colours.
pub open spec fn same_shell(pre: ColorPicker, post: ColorPicker) -> bool {
    &&& post.last_edited == pre.last_edited
    &&& post.hex_edit == pre.hex_edit
    &&& post.show_graphs == pre.show_graphs
    &&& post.expanded == pre.expanded
    &&& post.show_context == pre.show_context
    &&& post.keybinds == pre.keybinds
}

/// Whether `post` and `effect` are what taking the RGB triple `rgb` into
/// the colour at `index` gives: the triple re-expressed in the colour's own
/// space where exact arithmetic can, else the colours unchanged and a
/// request for the perceptual transform. An index past the last colour
/// changes nothing.
pub open spec fn took_rgb(
    pre: Seq<Color>,
    post: Seq<Color>,
    effect: Effect,
    index: usize,
    rgb: (int, int, int),
) -> bool {
    if index >= pre.len() {
        post == pre && effect is Nothing
    } else {
        match channels_of_rgb(pre[index as int].space(), rgb) {
            Some(channels) => replaced_at(
                pre,
                post,
                index as int,
                pre[index as int].space(),
                channels,
            ) && effect is Nothing,
            None => {
                &&& post == pre
                &&& effect matches Effect::Perceptual { index: i, target, rgb: given }
                &&& i == index
                &&& target == pre[index as int].space()
                &&& given matches Some(a)
                &&& (a[0] as int, a[1] as int, a[2] as int) == rgb
            },
        }
    }
}

/// Whether `post` and `effect` are what carrying out `action` gives.
pub open spec fn acted(pre: ColorPicker, action: Action, post: ColorPicker, effect: Effect) -> bool {
    &&& effect is Nothing
    &&& post.spaces@ == pre.spaces@
    &&& post.last_edited == pre.last_edited
    &&& post.hex_edit == pre.hex_edit
    &&& post.keybinds == pre.keybinds
    &&& post.show_graphs == (pre.show_graphs != (action == Action::ToggleGraphs))
    &&& post.expanded == (pre.expanded != (action == Action::ToggleExpanded))
    &&& post.show_context == (pre.show_context != (action == Action::About))
}

/// Whether `effect` asks for the clipboard text of the colour at `index`,
/// or for nothing where there is no such colour.
pub open spec fn copied(spaces: Seq<Color>, index: usize, effect: Effect) -> bool {
    if index < spaces.len() {
        effect matches Effect::WriteClipboard(text) && text@ == clipboard_text(
            spaces[index as int].space(),
            spaces[index as int].channels(),
        )
    } else {
        effect is Nothing
    }
}

/// Whether the picker `post` and the effect `effect` are what `message`
/// makes of the picker `pre`.
pub open spec fn stepped(pre: ColorPicker, message: Message, post: ColorPicker, effect: Effect) -> bool {
    match message {
        Message::Nothing => post == pre && effect is Nothing,
        Message::ColorSpace { index, message: ColorSpaceMessage::ChangeValue { index: channel, value } } => {
            &&& same_shell(pre, post)
            &&& effect is Nothing
            &&& if index < pre.spaces@.len() {
                replaced_at(
                    pre.spaces@,
                    post.spaces@,
                    index as int,
                    pre.spaces@[index as int].space(),
                    edited_channels(
                        pre.spaces@[index as int].space(),
                        pre.spaces@[index as int].channels(),
                        channel as int,
                        value as int,
                    ),
                )
            } else {
                post.spaces@ == pre.spaces@
            }
        },
        Message::ColorSpace { index, message: ColorSpaceMessage::ChangeString { index: channel, string } } => {
            &&& same_shell(pre, post)
            &&& effect is Nothing
            &&& match parsed_text(string@) {
                Some(value) => if index < pre.spaces@.len() {
                    replaced_at(
                        pre.spaces@,
                        post.spaces@,
                        index as int,
                        pre.spaces@[index as int].space(),
                        edited_channels(
                            pre.spaces@[index as int].space(),
                            pre.spaces@[index as int].channels(),
                            channel as int,
                            value,
                        ),
                    )
                } else {
                    post.spaces@ == pre.spaces@
                },
                None => post.spaces@ == pre.spaces@,
            }
        },
        Message::ChangeColorSpace { index, selected } => {
            &&& same_shell(pre, post)
            &&& if index >= pre.spaces@.len() {
                post.spaces@ == pre.spaces@ && effect is Nothing
            } else {
                match reexpressed(pre.spaces@[index as int], selected) {
                    Some(channels) => replaced_at(
                        pre.spaces@,
                        post.spaces@,
                        index as int,
                        selected,
                        channels,
                    ) && effect is Nothing,
                    None => {
                        &&& post.spaces@ == pre.spaces@
                        &&& effect matches Effect::Perceptual { index: i, target, rgb }
                        &&& i == index
                        &&& target == selected
                        &&& match pre.spaces@[index as int].pivot() {
                            Some(p) => rgb matches Some(a) && (
                                a[0] as int,
                                a[1] as int,
                                a[2] as int,
                            ) == p,
                            None => rgb is None,
                        }
                    },
                }
            }
        },
        Message::AddSpace => {
            &&& same_shell(pre, post)
            &&& effect is Nothing
            &&& post.spaces@.len() == pre.spaces@.len() + 1
            &&& post.spaces@.drop_last() == pre.spaces@
            &&& post.spaces@.last().wf()
            &&& post.spaces@.last().space() == ColorSpaceCombo::Rgb
            &&& post.spaces@.last().channels() == seq![0int, 0int, 0int]
        },
        Message::RemoveSpace(index) => {
            &&& same_shell(pre, post)
            &&& effect is Nothing
            &&& post.spaces@ == if index < pre.spaces@.len() {
                pre.spaces@.remove(index as int)
            } else {
                pre.spaces@
            }
        },
        Message::EditHex { space, hex } => {
            &&& post.last_edited == pre.last_edited
            &&& post.show_graphs == pre.show_graphs
            &&& post.expanded == pre.expanded
            &&& post.show_context == pre.show_context
            &&& post.keybinds == pre.keybinds
            &&& post.hex_edit matches Some(edit)
            &&& edit.0 == space
            &&& edit.1@ == hex@
            &&& match parsed_hex(hex@) {
                Ok(bytes) => took_rgb(pre.spaces@, post.spaces@, effect, space, widened(bytes)),
                Err(_) => post.spaces@ == pre.spaces@ && effect is Nothing,
            }
        },
        Message::SubmitHex(_) => {
            &&& effect is Nothing
            &&& post.spaces@ == pre.spaces@
            &&& post.last_edited == pre.last_edited
            &&& post.hex_edit is None
            &&& post.show_graphs == pre.show_graphs
            &&& post.expanded == pre.expanded
            &&& post.show_context == pre.show_context
            &&& post.keybinds == pre.keybinds
        },
        Message::ToggleGraphs => acted(pre, Action::ToggleGraphs, post, effect),
        Message::ToggleExpanded => acted(pre, Action::ToggleExpanded, post, effect),
        Message::ToggleAboutPage => acted(pre, Action::About, post, effect),
        Message::LaunchUrl(url) => {
            &&& post == pre
            &&& effect matches Effect::LaunchUrl(address)
            &&& address@ == url@
        },
        Message::CopyToClipboard(index) => post == pre && copied(pre.spaces@, index, effect),
        Message::PickScreenRequest(index) => {
            &&& post == pre
            &&& effect matches Effect::PickScreen(i)
            &&& i == index
        },
        Message::PickScreenResponse(index, rgb) => {
            &&& same_shell(pre, post)
            &&& took_rgb(pre.spaces@, post.spaces@, effect, index, clamped_rgb(rgb))
        },
        Message::Key(key, modifiers) => match bound_action(pre.keybinds@, 0, modifiers, key) {
            Some(action) => acted(pre, action, post, effect),
            None => {
                &&& post == pre
                &&& if modifiers.control && key == Key::Character('c') {
                    copied(pre.spaces@, pre.last_edited, effect)
                } else {
                    effect is Nothing
                }
            },
        },
        Message::Derived { index, color } => {
            &&& same_shell(pre, post)
            &&& effect is Nothing
            &&& post.spaces@ == if index < pre.spaces@.len() {
                pre.spaces@.update(index as int, color)
            } else {
                pre.spaces@
            }
        },
    }
}

/// The hexadecimal text shown for the colour at `index`: what is being
/// typed for it, if anything is, else the text of its eight-bit channels.
pub open spec fn hex_text_of(
    hex_edit: Option<(usize, String)>,
    index: usize,
    srgb: Seq<u8>,
) -> Seq<char> {
    match hex_edit {
        Some(edit) => if edit.0 == index {
            edit.1@
        } else {
            seq!['#'] + encoded(srgb)
        },
        None => seq!['#'] + encoded(srgb),
    }
}

impl ColorPicker {
    /// The hexadecimal text to show for the colour at `index`, whose
    /// eight-bit channels are `srgb`: the text being typed for that colour
    /// while one is, and the encoding of the channels otherwise.
    pub fn hex_text(&self, index: usize, srgb: [u8; 3]) -> (res: String)
        ensures
            res@ == hex_text_of(self.hex_edit, index, srgb@),
    {
        match &self.hex_edit {
            Some(edit) => if edit.0 == index {
                edit.1.clone()
            } else {
                encode(srgb)
            },
            None => encode(srgb),
        }
    }

    /// A picker with one colour, black in RGB, every switch off, no
    /// hexadecimal text being typed, and the default shortcuts.
    pub fn new() -> (res: ColorPicker)
        ensures
            res.spaces@.len() == 1,
            res.spaces@[0].wf(),
            res.spaces@[0].space() == ColorSpaceCombo::Rgb,
            res.spaces@[0].channels() == seq![0int, 0int, 0int],
            res.last_edited == 0,
            res.hex_edit is None,
            !res.show_graphs,
            !res.expanded,
            !res.show_context,
            res.keybinds@ == default_keybinds(),
    {
        let control = Modifiers { control: true, shift: false, alt: false, logo: false };
        let mut keybinds: Vec<(KeyBind, Action)> = Vec::new();
        keybinds.push((KeyBind { modifiers: control, key: 'g' }, Action::ToggleGraphs));
        keybinds.push((KeyBind { modifiers: control, key: 'e' }, Action::ToggleExpanded));
        let mut spaces: Vec<Color> = Vec::new();
        spaces.push(Color::default());
        ColorPicker {
            spaces,
            last_edited: 0,
            hex_edit: None,
            show_graphs: false,
            expanded: false,
            show_context: false,
            keybinds,
        }
    }

    /// Carries out an action: flips the switch that it names.
    fn act(&mut self, action: Action)
        ensures
            acted(*old(self), action, *final(self), Effect::Nothing),
    {
        match action {
            Action::ToggleGraphs => {
                self.show_graphs = !self.show_graphs;
            },
            Action::ToggleExpanded => {
                self.expanded = !self.expanded;
            },
            Action::About => {
                self.show_context = !self.show_context;
            },
        }
    }

    /// The effect that copies the colour at `index`.
    fn copy(&self, index: usize) -> (effect: Effect)
        ensures
            copied(self.spaces@, index, effect),
    {
        if index < self.spaces.len() {
            Effect::WriteClipboard(self.spaces[index].copy_to_clipboard())
        } else {
            Effect::Nothing
        }
    }

    /// Takes an RGB triple into the colour at `index`.
    fn take_rgb(&mut self, index: usize, rgb: [i64; 3]) -> (effect: Effect)
        ensures
            same_shell(*old(self), *final(self)),
            took_rgb(old(self).spaces@, final(self).spaces@, effect, index, clamped_rgb(rgb)),
    {
        if index >= self.spaces.len() {
            return Effect::Nothing;
        }
        let mut color = self.spaces[index];
        if color.convert_from_rgb(rgb) {
            self.spaces.set(index, color);
            Effect::Nothing
        } else {
            let clamped = Rgb::from_rgb(rgb).to_rgb();
            Effect::Perceptual { index, target: color.selection(), rgb: Some(clamped) }
        }
    }

    /// The action of the first shortcut that a key press matches.
    fn find_action(&self, modifiers: Modifiers, key: Key) -> (res: Option<Action>)
        ensures
            res == bound_action(self.keybinds@, 0, modifiers, key),
    {
        let mut i: usize = 0;
        while i < self.keybinds.len()
            invariant
                i <= self.keybinds@.len(),
                bound_action(self.keybinds@, 0, modifiers, key) == bound_action(
                    self.keybinds@,
                    i as int,
                    modifiers,
                    key,
                ),
            decreases self.keybinds@.len() - i,
        {
            let (bind, action) = self.keybinds[i];
            if bind.matches(modifiers, key) {
                return Some(action);
            }
            i += 1;
        }
        None
    }

    /// Applies a message: changes the picker as the message asks, and gives
    /// the effect that the caller is to carry out. A message for a colour
    /// that is not there changes nothing; text that is no number, or no
    /// hexadecimal colour, changes no colour.
    pub fn update(&mut self, message: Message) -> (effect: Effect)
        ensures
            stepped(*old(self), message, *final(self), effect),
    {
        match message {
            Message::Nothing => Effect::Nothing,
            Message::ColorSpace { index, message } => {
                if index < self.spaces.len() {
                    let mut color = self.spaces[index];
                    match message {
                        ColorSpaceMessage::ChangeValue { index: channel, value } => {
                            color.change_value(channel, value);
                        },
                        ColorSpaceMessage::ChangeString { index: channel, string } => {
                            color.change_string(channel, string);
                        },
                    }
                    self.spaces.set(index, color);
                    assert(color == old(self).spaces@[index as int] ==> self.spaces@ =~= old(
                        self,
                    ).spaces@);
                }
                Effect::Nothing
            },
            Message::ChangeColorSpace { index, selected } => {
                if index >= self.spaces.len() {
                    return Effect::Nothing;
                }
                let color = self.spaces[index];
                let rgb = color.current_rgb();
                let converted = match rgb {
                    Some(pivot) => Color::from_rgb(selected, pivot),
                    None => None,
                };
                match converted {
                    Some(c) => {
                        self.spaces.set(index, c);
                        Effect::Nothing
                    },
                    None => Effect::Perceptual { index, target: selected, rgb },
                }
            },
            Message::AddSpace => {
                self.spaces.push(Color::default());
                assert(self.spaces@.drop_last() =~= old(self).spaces@);
                Effect::Nothing
            },
            Message::RemoveSpace(index) => {
                if index < self.spaces.len() {
                    self.spaces.remove(index);
                }
                Effect::Nothing
            },
            Message::EditHex { space, hex } => {
                let outcome = parse(hex.as_str());
                self.hex_edit = Some((space, hex));
                match outcome {
                    Ok(bytes) => self.take_rgb(space, Rgb::from_bytes(bytes).to_rgb()),
                    Err(_) => Effect::Nothing,
                }
            },
            Message::SubmitHex(_) => {
                self.hex_edit = None;
                Effect::Nothing
            },
            Message::ToggleGraphs => {
                self.act(Action::ToggleGraphs);
                Effect::Nothing
            },
            Message::ToggleExpanded => {
                self.act(Action::ToggleExpanded);
                Effect::Nothing
            },
            Message::ToggleAboutPage => {
                self.act(Action::About);
                Effect::Nothing
            },
            Message::LaunchUrl(url) => Effect::LaunchUrl(url),
            Message::CopyToClipboard(index) => self.copy(index),
            Message::PickScreenRequest(index) => Effect::PickScreen(index),
            Message::PickScreenResponse(index, rgb) => self.take_rgb(index, rgb),
            Message::Key(key, modifiers) => {
                match self.find_action(modifiers, key) {
                    Some(action) => {
                        self.act(action);
                        Effect::Nothing
                    },
                    None => {
                        if modifiers.control && key == Key::Character('c') {
                            self.copy(self.last_edited)
                        } else {
                            Effect::Nothing
                        }
                    },
                }
            },
            Message::Derived { index, color } => {
                if index < self.spaces.len() {
                    self.spaces.set(index, color);
                }
                Effect::Nothing
            },
        }
    }
}

} // verus!
