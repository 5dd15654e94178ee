//! Presets: templates of how much the interface shows and allows.

use crate::mode::Mode;
use crate::text::{ascii_lowered, chars_of, spells, to_ascii_lower};
use vstd::prelude::*;

verus! {

/// A complexity template.
#[derive(Debug, Clone, Copy, PartialEq, Eq, Structural)]
pub enum Preset {
    /// Simple mode by default, every feature at hand.
    Default,
    /// A minimal interface without the speed test.
    Work,
    /// No operation in one step.
    Strict,
    /// Expert mode by default, every detail shown.
    Expert,
}

/// The preset that a word names, whatever the case of its ASCII letters.
pub open spec fn preset_named(word: Seq<char>) -> Option<Preset> {
    let w = ascii_lowered(word);
    if w == "default"@ {
        Some(Preset::Default)
    } else if w == "work"@ {
        Some(Preset::Work)
    } else if w == "strict"@ {
        Some(Preset::Strict)
    } else if w == "expert"@ {
        Some(Preset::Expert)
    } else {
        None
    }
}

impl Preset {
    /// The word that the preset is stored as.
    pub open spec fn keyword(self) -> Seq<char> {
        match self {
            Preset::Default => "default"@,
            Preset::Work => "work"@,
            Preset::Strict => "strict"@,
            Preset::Expert => "expert"@,
        }
    }

    /// The name shown for the preset.
    pub open spec fn title(self) -> Seq<char> {
        match self {
            Preset::Default => "Default"@,
            Preset::Work => "Work"@,
            Preset::Strict => "Strict"@,
            Preset::Expert => "Expert"@,
        }
    }

    /// The sentence that describes the preset.
    pub open spec fn summary(self) -> Seq<char> {
        match self {
            Preset::Default => "Simple mode by default, all features available"@,
            Preset::Work => "Minimal UI, hide speed test, focus on switching"@,
            Preset::Strict => "Disable quick operations, require Expert mode"@,
            Preset::Expert => "Expert mode by default, show all details"@,
        }
    }

    /// The preset that follows in the cycle Default, Work, Strict, Expert.
    pub open spec fn successor(self) -> Preset {
        match self {
            Preset::Default => Preset::Work,
            Preset::Work => Preset::Strict,
            Preset::Strict => Preset::Expert,
            Preset::Expert => Preset::Default,
        }
    }

    /// Reads the preset that a word names.
    pub fn from_str(s: &str) -> (preset: Option<Preset>)
        ensures
            preset == preset_named(s@),
    {
        let chars = chars_of(s);
        let lowered = to_ascii_lower(chars.as_slice());
        let w = lowered.as_slice();
        if spells(w, "default") {
            Some(Preset::Default)
        } else if spells(w, "work") {
            Some(Preset::Work)
        } else if spells(w, "strict") {
            Some(Preset::Strict)
        } else if spells(w, "expert") {
            Some(Preset::Expert)
        } else {
            None
        }
    }

    /// The word that the preset is stored as.
    pub fn as_str(&self) -> (word: &'static str)
        ensures
            word@ == self.keyword(),
    {
        match self {
            Preset::Default => "default",
            Preset::Work => "work",
            Preset::Strict => "strict",
            Preset::Expert => "expert",
        }
    }

    /// The name shown for the preset.
    pub fn name(&self) -> (name: &'static str)
        ensures
            name@ == self.title(),
    {
        match self {
            Preset::Default => "Default",
            Preset::Work => "Work",
            Preset::Strict => "Strict",
            Preset::Expert => "Expert",
        }
    }

    /// The sentence that describes the preset.
    pub fn description(&self) -> (text: &'static str)
        ensures
            text@ == self.summary(),
    {
        match self {
            Preset::Default => "Simple mode by default, all features available",
            Preset::Work => "Minimal UI, hide speed test, focus on switching",
            Preset::Strict => "Disable quick operations, require Expert mode",
            Preset::Expert => "Expert mode by default, show all details",
        }
    }

    /// Whether the speed test is shown: in every preset but Work.
    pub fn show_speed_test(&self) -> (shown: bool)
        ensures
            shown == (*self != Preset::Work),
    {
        match self {
            Preset::Work => false,
            _ => true,
        }
    }

    /// Whether a proxy may be switched in one step: in every preset but
    /// Strict.
    pub fn allow_quick_switch(&self) -> (allowed: bool)
        ensures
            allowed == (*self != Preset::Strict),
    {
        match self {
            Preset::Strict => false,
            _ => true,
        }
    }

    /// The mode that the preset starts in: Expert for Expert, else Simple.
    pub fn default_mode(&self) -> (mode: Mode)
        ensures
            mode == if *self == Preset::Expert {
                Mode::Expert
            } else {
                Mode::Simple
            },
    {
        match self {
            Preset::Expert => Mode::Expert,
            _ => Mode::Simple,
        }
    }

    /// Whether changing data is refreshed by itself: in every preset.
    pub fn auto_refresh(&self) -> (refresh: bool)
        ensures
            refresh,
    {
        true
    }

    /// Every preset, in the order of the cycle.
    pub fn all() -> (list: Vec<Preset>)
        ensures
            list@ == seq![Preset::Default, Preset::Work, Preset::Strict, Preset::Expert],
    {
        let mut list: Vec<Preset> = Vec::new();
        list.push(Preset::Default);
        list.push(Preset::Work);
        list.push(Preset::Strict);
        list.push(Preset::Expert);
        assert(list@ =~= seq![Preset::Default, Preset::Work, Preset::Strict, Preset::Expert]);
        list
    }

    /// The preset that follows in the cycle.
    pub fn next(&self) -> (following: Preset)
        ensures
            following == self.successor(),
    {
        match self {
            Preset::Default => Preset::Work,
            Preset::Work => Preset::Strict,
            Preset::Strict => Preset::Expert,
            Preset::Expert => Preset::Default,
        }
    }
}

impl Default for Preset {
    fn default() -> (preset: Preset)
        ensures
            preset == Preset::Default,
    {
        Preset::Default
    }
}

/// The cycle of presets comes back to where it began after four steps, and
/// not before.
pub proof fn lemma_preset_cycle(preset: Preset)
    ensures
        preset.successor().successor().successor().successor() == preset,
        preset.successor() != preset,
        preset.successor().successor() != preset,
        preset.successor().successor().successor() != preset,
{
}

/// The word that a preset is stored as names that preset.
pub proof fn lemma_keyword_names_preset(preset: Preset)
    ensures
        preset_named(preset.keyword()) == Some(preset),
{
    reveal_strlit("default");
    reveal_strlit("work");
    reveal_strlit("strict");
    reveal_strlit("expert");
    let w = preset.keyword();
    assert(ascii_lowered(w) =~= w);
    assert("strict"@[0] != "expert"@[0]);
    assert("default"@.len() == 7 && "work"@.len() == 4 && "strict"@.len() == 6);
}

} // verus!
