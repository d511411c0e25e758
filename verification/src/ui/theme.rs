//! Colors and styles, and which of them a terminal can show.

use vstd::prelude::*;
use vstd::string::*;

use crate::domain::{clone_optional_text, optional_text};
use crate::text::{chars_of, contains_chars, contains_part, lowercase, lowercase_chars};

verus! {

/// What colors a terminal can show.
#[derive(Clone, Copy, Debug, Eq, Hash, PartialEq, Structural)]
pub enum ColorCapability {
    TrueColor,
    Ansi256,
    Basic,
    Monochrome,
}

impl Default for ColorCapability {
    fn default() -> (capability: Self)
        ensures
            capability == ColorCapability::TrueColor,
    {
        ColorCapability::TrueColor
    }
}

/// What is known of a terminal, for telling which colors it can show.
#[derive(Debug, Eq, PartialEq)]
pub struct TerminalColorSnapshot {
    output_is_terminal: bool,
    no_color: bool,
    term: Option<String>,
    colorterm: Option<String>,
}

/// What a [`TerminalColorSnapshot`] says.
#[verifier::ext_equal]
pub struct TerminalColorView {
    pub output_is_terminal: bool,
    pub no_color: bool,
    pub term: Option<Seq<char>>,
    pub colorterm: Option<Seq<char>>,
}

impl View for TerminalColorSnapshot {
    type V = TerminalColorView;

    closed spec fn view(&self) -> TerminalColorView {
        TerminalColorView {
            output_is_terminal: self.output_is_terminal,
            no_color: self.no_color,
            term: optional_text(self.term),
            colorterm: optional_text(self.colorterm),
        }
    }
}

impl Clone for TerminalColorSnapshot {
    fn clone(&self) -> (copy: Self)
        ensures
            copy == *self,
    {
        TerminalColorSnapshot {
            output_is_terminal: self.output_is_terminal,
            no_color: self.no_color,
            term: clone_optional_text(&self.term),
            colorterm: clone_optional_text(&self.colorterm),
        }
    }
}

/// The text of an optional string slice.
pub open spec fn optional_str(text: Option<&str>) -> Option<Seq<char>> {
    match text {
        Some(text) => Some(text@),
        None => None,
    }
}

fn owned(text: Option<&str>) -> (owned: Option<String>)
    ensures
        optional_text(owned) == optional_str(text),
{
    match text {
        Some(text) => Some(text.to_owned()),
        None => None,
    }
}

impl TerminalColorSnapshot {
    pub fn new(
        output_is_terminal: bool,
        no_color: bool,
        term: Option<&str>,
        colorterm: Option<&str>,
    ) -> (snapshot: Self)
        ensures
            snapshot@ == (TerminalColorView {
                output_is_terminal,
                no_color,
                term: optional_str(term),
                colorterm: optional_str(colorterm),
            }),
    {
        TerminalColorSnapshot {
            output_is_terminal,
            no_color,
            term: owned(term),
            colorterm: owned(colorterm),
        }
    }
}

/// The text of a variable, in small letters; nothing when it is not set.
pub open spec fn variable(value: Option<Seq<char>>) -> Seq<char> {
    match value {
        Some(value) => lowercase(value),
        None => Seq::empty(),
    }
}

/// Whether a variable's text speaks of direct color.
pub open spec fn names_true_color(value: Seq<char>) -> bool {
    contains_part(value, "truecolor"@) || contains_part(value, "24bit"@) || contains_part(
        value,
        "direct"@,
    )
}

/// The colors that a terminal can show.
pub open spec fn capability_of(terminal: TerminalColorView) -> ColorCapability {
    let term = variable(terminal.term);
    if !terminal.output_is_terminal || terminal.no_color || term == "dumb"@ {
        ColorCapability::Monochrome
    } else if names_true_color(term) || names_true_color(variable(terminal.colorterm)) {
        ColorCapability::TrueColor
    } else if contains_part(term, "256color"@) {
        ColorCapability::Ansi256
    } else {
        ColorCapability::Basic
    }
}

fn lowercase_variable(value: &Option<String>) -> (characters: Vec<char>)
    ensures
        characters@ == variable(optional_text(*value)),
{
    match value {
        Some(value) => lowercase_chars(value.as_str()),
        None => Vec::new(),
    }
}

fn speaks_of_true_color(value: &Vec<char>) -> (found: bool)
    ensures
        found == names_true_color(value@),
{
    contains_chars(value, &chars_of("truecolor")) || contains_chars(value, &chars_of("24bit"))
        || contains_chars(value, &chars_of("direct"))
}

fn same_chars(left: &Vec<char>, right: &Vec<char>) -> (same: bool)
    ensures
        same == (left@ == right@),
{
    if left.len() != right.len() {
        return false;
    }
    let mut index: usize = 0;
    while index < left.len()
        invariant
            left.len() == right.len(),
            index <= left.len(),
            forall|i: int| 0 <= i < index ==> left@[i] == #[trigger] right@[i],
        decreases left.len() - index,
    {
        if left[index] != right[index] {
            assert(left@[index as int] != right@[index as int]);
            return false;
        }
        index = index + 1;
    }
    assert(left@ =~= right@);
    true
}

/// Tells which colors a terminal can show from what is known of it.
pub fn detect_color_capability(snapshot: &TerminalColorSnapshot) -> (capability: ColorCapability)
    ensures
        capability == capability_of(snapshot@),
{
    if !snapshot.output_is_terminal || snapshot.no_color {
        return ColorCapability::Monochrome;
    }
    let term = lowercase_variable(&snapshot.term);
    if same_chars(&term, &chars_of("dumb")) {
        return ColorCapability::Monochrome;
    }
    let colorterm = lowercase_variable(&snapshot.colorterm);
    if speaks_of_true_color(&term) || speaks_of_true_color(&colorterm) {
        return ColorCapability::TrueColor;
    }
    if contains_chars(&term, &chars_of("256color")) {
        return ColorCapability::Ansi256;
    }
    ColorCapability::Basic
}

/// A color of the terminal.
#[derive(Clone, Copy, Debug, Eq, Hash, PartialEq, Structural)]
pub enum Color {
    Reset,
    Black,
    Red,
    Green,
    Yellow,
    Blue,
    Magenta,
    Cyan,
    Gray,
    DarkGray,
    LightRed,
    LightGreen,
    LightYellow,
    LightBlue,
    LightMagenta,
    LightCyan,
    White,
    Rgb(u8, u8, u8),
    Indexed(u8),
}

/// How text is drawn. What is not set stays as it was.
#[derive(Clone, Copy, Debug, Eq, PartialEq, Structural)]
pub struct Style {
    pub fg: Option<Color>,
    pub bg: Option<Color>,
    pub bold: bool,
    pub dim: bool,
    /// Whether bold, dim and all other modifiers of what was drawn before end.
    pub clears_modifiers: bool,
}

/// The style that changes nothing.
pub open spec fn plain() -> Style {
    Style { fg: None, bg: None, bold: false, dim: false, clears_modifiers: false }
}

impl Style {
    /// The style with another foreground.
    pub open spec fn on_fg(self, color: Color) -> Style {
        Style { fg: Some(color), ..self }
    }

    /// The style with another background.
    pub open spec fn on_bg(self, color: Color) -> Style {
        Style { bg: Some(color), ..self }
    }

    /// The style in bold.
    pub open spec fn in_bold(self) -> Style {
        Style { bold: true, ..self }
    }

    /// The style, dimmed.
    pub open spec fn in_dim(self) -> Style {
        Style { dim: true, ..self }
    }

    pub fn new() -> (style: Self)
        ensures
            style == plain(),
    {
        Style { fg: None, bg: None, bold: false, dim: false, clears_modifiers: false }
    }

    /// The style that ends all modifiers and resets the colors.
    pub fn reset() -> (style: Self)
        ensures
            style == (Style {
                fg: Some(Color::Reset),
                bg: Some(Color::Reset),
                bold: false,
                dim: false,
                clears_modifiers: true,
            }),
    {
        Style {
            fg: Some(Color::Reset),
            bg: Some(Color::Reset),
            bold: false,
            dim: false,
            clears_modifiers: true,
        }
    }

    pub fn fg(self, color: Color) -> (style: Self)
        ensures
            style == self.on_fg(color),
    {
        Style { fg: Some(color), ..self }
    }

    pub fn bg(self, color: Color) -> (style: Self)
        ensures
            style == self.on_bg(color),
    {
        Style { bg: Some(color), ..self }
    }

    pub fn bold(self) -> (style: Self)
        ensures
            style == self.in_bold(),
    {
        Style { bold: true, ..self }
    }

    pub fn dim(self) -> (style: Self)
        ensures
            style == self.in_dim(),
    {
        Style { dim: true, ..self }
    }
}

/// The colors that the interface is drawn in.
#[derive(Clone, Copy, Debug, Eq, PartialEq, Structural)]
pub struct Theme {
    pub capability: ColorCapability,
    pub background: Color,
    pub foreground: Color,
    pub muted: Color,
    pub accent: Color,
    pub selection: Color,
    pub warning: Color,
}

/// The colors for what a terminal can show.
pub open spec fn theme_for(capability: ColorCapability) -> Theme {
    match capability {
        ColorCapability::TrueColor => Theme {
            capability,
            background: Color::Rgb(10, 14, 20),
            foreground: Color::Rgb(224, 231, 239),
            muted: Color::Rgb(126, 142, 158),
            accent: Color::Rgb(100, 210, 255),
            selection: Color::Rgb(255, 204, 102),
            warning: Color::Rgb(255, 128, 128),
        },
        ColorCapability::Ansi256 => Theme {
            capability,
            background: Color::Indexed(234),
            foreground: Color::Indexed(254),
            muted: Color::Indexed(245),
            accent: Color::Indexed(81),
            selection: Color::Indexed(221),
            warning: Color::Indexed(210),
        },
        ColorCapability::Basic => Theme {
            capability,
            background: Color::Black,
            foreground: Color::White,
            muted: Color::DarkGray,
            accent: Color::Cyan,
            selection: Color::Yellow,
            warning: Color::LightRed,
        },
        ColorCapability::Monochrome => Theme {
            capability,
            background: Color::Reset,
            foreground: Color::Reset,
            muted: Color::Reset,
            accent: Color::Reset,
            selection: Color::Reset,
            warning: Color::Reset,
        },
    }
}

impl Theme {
    /// What the terminal can show.
    pub open spec fn shows(self) -> ColorCapability {
        self.capability
    }

    pub fn for_capability(capability: ColorCapability) -> (theme: Self)
        ensures
            theme == theme_for(capability),
    {
        match capability {
            ColorCapability::TrueColor => Theme {
                capability,
                background: Color::Rgb(10, 14, 20),
                foreground: Color::Rgb(224, 231, 239),
                muted: Color::Rgb(126, 142, 158),
                accent: Color::Rgb(100, 210, 255),
                selection: Color::Rgb(255, 204, 102),
                warning: Color::Rgb(255, 128, 128),
            },
            ColorCapability::Ansi256 => Theme {
                capability,
                background: Color::Indexed(234),
                foreground: Color::Indexed(254),
                muted: Color::Indexed(245),
                accent: Color::Indexed(81),
                selection: Color::Indexed(221),
                warning: Color::Indexed(210),
            },
            ColorCapability::Basic => Theme {
                capability,
                background: Color::Black,
                foreground: Color::White,
                muted: Color::DarkGray,
                accent: Color::Cyan,
                selection: Color::Yellow,
                warning: Color::LightRed,
            },
            ColorCapability::Monochrome => Theme {
                capability,
                background: Color::Reset,
                foreground: Color::Reset,
                muted: Color::Reset,
                accent: Color::Reset,
                selection: Color::Reset,
                warning: Color::Reset,
            },
        }
    }

    pub fn capability(&self) -> (capability: ColorCapability)
        ensures
            capability == self.shows(),
    {
        self.capability
    }
}

impl Default for Theme {
    fn default() -> (theme: Self)
        ensures
            theme == theme_for(ColorCapability::TrueColor),
    {
        Theme::for_capability(ColorCapability::TrueColor)
    }
}

/// Where the output is no terminal, or colors are not wanted, none are shown,
/// whatever else the terminal says of itself.
pub proof fn law_unwanted_colors_are_not_shown(terminal: TerminalColorView)
    requires
        !terminal.output_is_terminal || terminal.no_color,
    ensures
        capability_of(terminal) == ColorCapability::Monochrome,
        ({
            let theme = theme_for(capability_of(terminal));
            &&& theme.background == Color::Reset
            &&& theme.foreground == Color::Reset
            &&& theme.muted == Color::Reset
            &&& theme.accent == Color::Reset
            &&& theme.selection == Color::Reset
            &&& theme.warning == Color::Reset
        }),
{
}

} // verus!
