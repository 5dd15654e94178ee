//! Colour themes, by name.

use crate::text::{ascii_lowered, chars_of, spells, to_ascii_lower};
use vstd::prelude::*;

verus! {

/// A colour of the terminal: one of its named colours, or one given by its
/// red, green and blue parts.
#[derive(Debug, Clone, Copy, PartialEq, Eq, Structural)]
pub enum Color {
    Black,
    Red,
    Green,
    Yellow,
    Blue,
    Magenta,
    Cyan,
    Gray,
    DarkGray,
    LightBlue,
    White,
    Rgb(u8, u8, u8),
}

/// A colour theme.
#[derive(Debug, Clone, Copy, PartialEq, Eq, Structural)]
pub enum Theme {
    Dark,
    Light,
    Dracula,
    Nord,
}

/// The theme that a word names, whatever the case of its ASCII letters;
/// Dark for any word that names none.
pub open spec fn theme_named(word: Seq<char>) -> Theme {
    let w = ascii_lowered(word);
    if w == "light"@ {
        Theme::Light
    } else if w == "dracula"@ {
        Theme::Dracula
    } else if w == "nord"@ {
        Theme::Nord
    } else {
        Theme::Dark
    }
}

/// The part that a colour plays in a theme.
#[derive(Debug, Clone, Copy, PartialEq, Eq, Structural)]
pub enum Role {
    Primary,
    Secondary,
    Success,
    Warning,
    Error,
    Text,
    TextMuted,
    Background,
    Border,
    Selected,
    Highlight,
}

/// The colour that plays a part in a theme.
pub open spec fn theme_color(theme: Theme, role: Role) -> Color {
    match (role, theme) {
        (Role::Primary, Theme::Dark) => Color::Cyan,
        (Role::Primary, Theme::Light) => Color::Blue,
        (Role::Primary, Theme::Dracula) => Color::Magenta,
        (Role::Primary, Theme::Nord) => Color::Cyan,
        (Role::Secondary, Theme::Dark) => Color::Yellow,
        (Role::Secondary, Theme::Light) => Color::Cyan,
        (Role::Secondary, Theme::Dracula) => Color::Cyan,
        (Role::Secondary, Theme::Nord) => Color::LightBlue,
        (Role::Success, Theme::Dark) => Color::Green,
        (Role::Success, Theme::Light) => Color::Green,
        (Role::Success, Theme::Dracula) => Color::Green,
        (Role::Success, Theme::Nord) => Color::Green,
        (Role::Warning, Theme::Dark) => Color::Yellow,
        (Role::Warning, Theme::Light) => Color::Yellow,
        (Role::Warning, Theme::Dracula) => Color::Yellow,
        (Role::Warning, Theme::Nord) => Color::Yellow,
        (Role::Error, Theme::Dark) => Color::Red,
        (Role::Error, Theme::Light) => Color::Red,
        (Role::Error, Theme::Dracula) => Color::Red,
        (Role::Error, Theme::Nord) => Color::Red,
        (Role::Text, Theme::Dark) => Color::White,
        (Role::Text, Theme::Light) => Color::Black,
        (Role::Text, Theme::Dracula) => Color::White,
        (Role::Text, Theme::Nord) => Color::White,
        (Role::TextMuted, Theme::Dark) => Color::Gray,
        (Role::TextMuted, Theme::Light) => Color::DarkGray,
        (Role::TextMuted, Theme::Dracula) => Color::Gray,
        (Role::TextMuted, Theme::Nord) => Color::LightBlue,
        (Role::Background, Theme::Dark) => Color::Black,
        (Role::Background, Theme::Light) => Color::White,
        (Role::Background, Theme::Dracula) => Color::Rgb(40, 42, 54),
        (Role::Background, Theme::Nord) => Color::Rgb(46, 52, 64),
        (Role::Border, Theme::Dark) => Color::DarkGray,
        (Role::Border, Theme::Light) => Color::Gray,
        (Role::Border, Theme::Dracula) => Color::Rgb(68, 71, 90),
        (Role::Border, Theme::Nord) => Color::Rgb(76, 86, 106),
        (Role::Selected, Theme::Dark) => Color::Cyan,
        (Role::Selected, Theme::Light) => Color::Blue,
        (Role::Selected, Theme::Dracula) => Color::Magenta,
        (Role::Selected, Theme::Nord) => Color::Cyan,
        (Role::Highlight, Theme::Dark) => Color::Yellow,
        (Role::Highlight, Theme::Light) => Color::Cyan,
        (Role::Highlight, Theme::Dracula) => Color::Rgb(255, 121, 198),
        (Role::Highlight, Theme::Nord) => Color::Rgb(136, 192, 208),
    }
}

impl Theme {
    /// The word that the theme is stored as.
    pub open spec fn keyword(self) -> Seq<char> {
        match self {
            Theme::Dark => "dark"@,
            Theme::Light => "light"@,
            Theme::Dracula => "dracula"@,
            Theme::Nord => "nord"@,
        }
    }

    /// The name shown for the theme.
    pub open spec fn title(self) -> Seq<char> {
        match self {
            Theme::Dark => "Dark"@,
            Theme::Light => "Light"@,
            Theme::Dracula => "Dracula"@,
            Theme::Nord => "Nord"@,
        }
    }

    /// The theme that follows in the cycle Dark, Light, Dracula, Nord.
    pub open spec fn successor(self) -> Theme {
        match self {
            Theme::Dark => Theme::Light,
            Theme::Light => Theme::Dracula,
            Theme::Dracula => Theme::Nord,
            Theme::Nord => Theme::Dark,
        }
    }

    /// The word that the theme is stored as.
    pub fn as_str(&self) -> (word: &'static str)
        ensures
            word@ == self.keyword(),
    {
        match self {
            Theme::Dark => "dark",
            Theme::Light => "light",
            Theme::Dracula => "dracula",
            Theme::Nord => "nord",
        }
    }

    /// Reads the theme that a word names.
    pub fn from_str(s: &str) -> (theme: Theme)
        ensures
            theme == theme_named(s@),
    {
        let chars = chars_of(s);
        let lowered = to_ascii_lower(chars.as_slice());
        let w = lowered.as_slice();
        if spells(w, "light") {
            Theme::Light
        } else if spells(w, "dracula") {
            Theme::Dracula
        } else if spells(w, "nord") {
            Theme::Nord
        } else {
            Theme::Dark
        }
    }

    /// The theme that follows in the cycle.
    pub fn next(&self) -> (following: Theme)
        ensures
            following == self.successor(),
    {
        match self {
            Theme::Dark => Theme::Light,
            Theme::Light => Theme::Dracula,
            Theme::Dracula => Theme::Nord,
            Theme::Nord => Theme::Dark,
        }
    }

    /// The colour of what matters most.
    pub fn primary(&self) -> (color: Color)
        ensures
            color == theme_color(*self, Role::Primary),
    {
        match self {
            Theme::Dark => Color::Cyan,
            Theme::Light => Color::Blue,
            Theme::Dracula => Color::Magenta,
            Theme::Nord => Color::Cyan,
        }
    }

    /// The colour of what comes second.
    pub fn secondary(&self) -> (color: Color)
        ensures
            color == theme_color(*self, Role::Secondary),
    {
        match self {
            Theme::Dark => Color::Yellow,
            Theme::Light => Color::Cyan,
            Theme::Dracula => Color::Cyan,
            Theme::Nord => Color::LightBlue,
        }
    }

    /// The colour of good news.
    pub fn success(&self) -> (color: Color)
        ensures
            color == theme_color(*self, Role::Success),
    {
        match self {
            Theme::Dark => Color::Green,
            Theme::Light => Color::Green,
            Theme::Dracula => Color::Green,
            Theme::Nord => Color::Green,
        }
    }

    /// The colour of warnings.
    pub fn warning(&self) -> (color: Color)
        ensures
            color == theme_color(*self, Role::Warning),
    {
        match self {
            Theme::Dark => Color::Yellow,
            Theme::Light => Color::Yellow,
            Theme::Dracula => Color::Yellow,
            Theme::Nord => Color::Yellow,
        }
    }

    /// The colour of errors.
    pub fn error(&self) -> (color: Color)
        ensures
            color == theme_color(*self, Role::Error),
    {
        match self {
            Theme::Dark => Color::Red,
            Theme::Light => Color::Red,
            Theme::Dracula => Color::Red,
            Theme::Nord => Color::Red,
        }
    }

    /// The colour of text.
    pub fn text(&self) -> (color: Color)
        ensures
            color == theme_color(*self, Role::Text),
    {
        match self {
            Theme::Dark => Color::White,
            Theme::Light => Color::Black,
            Theme::Dracula => Color::White,
            Theme::Nord => Color::White,
        }
    }

    /// The colour of text that steps back.
    pub fn text_muted(&self) -> (color: Color)
        ensures
            color == theme_color(*self, Role::TextMuted),
    {
        match self {
            Theme::Dark => Color::Gray,
            Theme::Light => Color::DarkGray,
            Theme::Dracula => Color::Gray,
            Theme::Nord => Color::LightBlue,
        }
    }

    /// The colour behind everything.
    pub fn background(&self) -> (color: Color)
        ensures
            color == theme_color(*self, Role::Background),
    {
        match self {
            Theme::Dark => Color::Black,
            Theme::Light => Color::White,
            Theme::Dracula => Color::Rgb(40, 42, 54),
            Theme::Nord => Color::Rgb(46, 52, 64),
        }
    }

    /// The colour of borders.
    pub fn border(&self) -> (color: Color)
        ensures
            color == theme_color(*self, Role::Border),
    {
        match self {
            Theme::Dark => Color::DarkGray,
            Theme::Light => Color::Gray,
            Theme::Dracula => Color::Rgb(68, 71, 90),
            Theme::Nord => Color::Rgb(76, 86, 106),
        }
    }

    /// The colour of the selected row.
    pub fn selected(&self) -> (color: Color)
        ensures
            color == theme_color(*self, Role::Selected),
    {
        match self {
            Theme::Dark => Color::Cyan,
            Theme::Light => Color::Blue,
            Theme::Dracula => Color::Magenta,
            Theme::Nord => Color::Cyan,
        }
    }

    /// The colour of what is pointed out.
    pub fn highlight(&self) -> (color: Color)
        ensures
            color == theme_color(*self, Role::Highlight),
    {
        match self {
            Theme::Dark => Color::Yellow,
            Theme::Light => Color::Cyan,
            Theme::Dracula => Color::Rgb(255, 121, 198),
            Theme::Nord => Color::Rgb(136, 192, 208),
        }
    }

    /// The name shown for the theme.
    pub fn name(&self) -> (name: &'static str)
        ensures
            name@ == self.title(),
    {
        match self {
            Theme::Dark => "Dark",
            Theme::Light => "Light",
            Theme::Dracula => "Dracula",
            Theme::Nord => "Nord",
        }
    }
}

impl Default for Theme {
    fn default() -> (theme: Theme)
        ensures
            theme == Theme::Dark,
    {
        Theme::Dark
    }
}

} // verus!
