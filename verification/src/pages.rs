//! What the pages of the interface keep apart from what they draw.

use crate::text::same_text;
use crate::theme::Color;
use vstd::prelude::*;

verus! {

/// The page that is shown.
#[derive(Debug, Clone, Copy, PartialEq, Eq, Structural)]
pub enum Page {
    Home,
    Routes,
    Rules,
    Update,
    Connections,
    Settings,
    Logs,
    Performance,
}

/// The level that the log page filters by.
#[derive(Debug, Clone, Copy, PartialEq, Eq, Structural)]
pub enum LogLevel {
    All,
    Info,
    Warning,
    Error,
}

impl LogLevel {
    /// The label of the level.
    pub open spec fn label(self) -> Seq<char> {
        match self {
            LogLevel::All => "ALL"@,
            LogLevel::Info => "INFO"@,
            LogLevel::Warning => "WARNING"@,
            LogLevel::Error => "ERROR"@,
        }
    }

    /// The level that follows in the cycle All, Info, Warning, Error.
    pub open spec fn successor(self) -> LogLevel {
        match self {
            LogLevel::All => LogLevel::Info,
            LogLevel::Info => LogLevel::Warning,
            LogLevel::Warning => LogLevel::Error,
            LogLevel::Error => LogLevel::All,
        }
    }

    /// The level as the daemon's log stream names it; nothing for All,
    /// which asks for no filter.
    pub open spec fn stream_name(self) -> Option<Seq<char>> {
        match self {
            LogLevel::All => None,
            LogLevel::Info => Some("info"@),
            LogLevel::Warning => Some("warning"@),
            LogLevel::Error => Some("error"@),
        }
    }

    /// The colour of the level: gray for all, cyan for information, yellow
    /// for warnings and red for errors.
    pub open spec fn tint(self) -> Color {
        match self {
            LogLevel::All => Color::Gray,
            LogLevel::Info => Color::Cyan,
            LogLevel::Warning => Color::Yellow,
            LogLevel::Error => Color::Red,
        }
    }

    /// The colour of the level.
    pub fn color(&self) -> (color: Color)
        ensures
            color == self.tint(),
    {
        match self {
            LogLevel::All => Color::Gray,
            LogLevel::Info => Color::Cyan,
            LogLevel::Warning => Color::Yellow,
            LogLevel::Error => Color::Red,
        }
    }

    /// The label of the level.
    pub fn as_str(&self) -> (label: &'static str)
        ensures
            label@ == self.label(),
    {
        match self {
            LogLevel::All => "ALL",
            LogLevel::Info => "INFO",
            LogLevel::Warning => "WARNING",
            LogLevel::Error => "ERROR",
        }
    }

    /// The level that follows in the cycle.
    pub fn next(&self) -> (following: LogLevel)
        ensures
            following == self.successor(),
    {
        match self {
            LogLevel::All => LogLevel::Info,
            LogLevel::Info => LogLevel::Warning,
            LogLevel::Warning => LogLevel::Error,
            LogLevel::Error => LogLevel::All,
        }
    }
}

/// The level as the daemon's log stream names it.
pub fn log_level_to_ws(level: LogLevel) -> (name: Option<&'static str>)
    ensures
        match name {
            Some(n) => level.stream_name() == Some(n@),
            None => level.stream_name() is None,
        },
{
    match level {
        LogLevel::All => None,
        LogLevel::Info => Some("info"),
        LogLevel::Warning => Some("warning"),
        LogLevel::Error => Some("error"),
    }
}

/// The colour of a line of the log, by the level that the line names: red
/// for `ERROR`, yellow for `WARNING` and `WARN`, gray for `DEBUG`, and cyan
/// for any other.
pub open spec fn line_tint(level: Seq<char>) -> Color {
    if level == "ERROR"@ {
        Color::Red
    } else if level == "WARNING"@ || level == "WARN"@ {
        Color::Yellow
    } else if level == "DEBUG"@ {
        Color::Gray
    } else {
        Color::Cyan
    }
}

/// The colour of a line of the log.
pub fn line_color(level: &str) -> (color: Color)
    ensures
        color == line_tint(level@),
{
    if same_text(level, "ERROR") {
        Color::Red
    } else if same_text(level, "WARNING") || same_text(level, "WARN") {
        Color::Yellow
    } else if same_text(level, "DEBUG") {
        Color::Gray
    } else {
        Color::Cyan
    }
}

/// What the groups page is doing.
#[derive(Debug, Clone, PartialEq)]
pub enum GroupsAction {
    /// Showing the list of groups.
    Idle,
    /// Taking the name of a new group.
    CreateGroup(String),
    /// Choosing the nodes of the named group.
    SelectingNodes(String),
    /// Showing the nodes of the named group.
    ViewingGroup(String),
}

/// Which list a new rule is typed for.
#[derive(Debug, Clone, Copy, PartialEq, Eq, Structural)]
pub enum RuleEditMode {
    /// Typing nothing.
    Idle,
    AddWhitelist,
    AddBlacklist,
}

/// Which list of the rules page has the focus.
#[derive(Debug, Clone, Copy, PartialEq, Eq, Structural)]
pub enum RuleListFocus {
    Whitelist,
    Blacklist,
}

/// What the settings page is doing.
#[derive(Debug, Clone)]
pub enum SettingsAction {
    /// Showing the settings.
    Idle,
    ExportPrompt,
    ImportPrompt,
    ExportSuccess(String),
    ImportSuccess,
    Error(String),
}

} // verus!
