use vstd::prelude::*;

verus! {

/// How much of the interface is shown.
#[derive(Debug, Clone, Copy, PartialEq, Eq, Structural)]
pub enum Mode {
    Simple,
    Expert,
}

impl Mode {
    /// The other mode.
    pub open spec fn toggled(self) -> Mode {
        match self {
            Mode::Simple => Mode::Expert,
            Mode::Expert => Mode::Simple,
        }
    }

    /// The label shown for the mode.
    pub open spec fn label(self) -> Seq<char> {
        match self {
            Mode::Simple => "Simple"@,
            Mode::Expert => "Expert"@,
        }
    }

    pub fn toggle(&self) -> (next: Mode)
        ensures
            next == self.toggled(),
    {
        match self {
            Mode::Simple => Mode::Expert,
            Mode::Expert => Mode::Simple,
        }
    }

    pub fn as_str(&self) -> (text: &'static str)
        ensures
            text@ == self.label(),
    {
        match self {
            Mode::Simple => "Simple",
            Mode::Expert => "Expert",
        }
    }
}

} // verus!
