//! Terminal colors and the markers drawn next to branches and commits.
use vstd::prelude::*;

use crate::text::{str_eq, trim, trim_str};

verus! {

pub const HEAD: &'static str = "→";

pub const LIST_ITEM: &'static str = "*";

pub const SUCCESS: &'static str = "✓";

pub const DELETED: &'static str = "✗";

/// How many frames the in-flight spinner has.
pub const THROBBER_FRAME_COUNT: usize = 10;

pub open spec fn throbber_frame_v(i: nat) -> Seq<char> {
    if i == 0 {
        "⠋"@
    } else if i == 1 {
        "⠙"@
    } else if i == 2 {
        "⠹"@
    } else if i == 3 {
        "⠸"@
    } else if i == 4 {
        "⠼"@
    } else if i == 5 {
        "⠴"@
    } else if i == 6 {
        "⠦"@
    } else if i == 7 {
        "⠧"@
    } else if i == 8 {
        "⠇"@
    } else {
        "⠏"@
    }
}

/// The spinner frame with index `i`.
pub fn throbber_frame(i: usize) -> (s: &'static str)
    requires
        i < THROBBER_FRAME_COUNT,
    ensures
        s@ == throbber_frame_v(i as nat),
{
    if i == 0 {
        "⠋"
    } else if i == 1 {
        "⠙"
    } else if i == 2 {
        "⠹"
    } else if i == 3 {
        "⠸"
    } else if i == 4 {
        "⠼"
    } else if i == 5 {
        "⠴"
    } else if i == 6 {
        "⠦"
    } else if i == 7 {
        "⠧"
    } else if i == 8 {
        "⠇"
    } else {
        "⠏"
    }
}

/// The colors the tool paints with.
#[derive(Debug, Clone, Copy, PartialEq, Eq, Structural)]
pub enum Accent {
    HeadMarker,
    CommitHash,
    BranchRef,
    TagRef,
    InFlight,
    Success,
    Failure,
}

pub open spec fn accent_code(a: Accent) -> Seq<char> {
    match a {
        Accent::HeadMarker => "34"@,
        Accent::CommitHash => "33"@,
        Accent::BranchRef => "32"@,
        Accent::TagRef => "33"@,
        Accent::InFlight => "36"@,
        Accent::Success => "32"@,
        Accent::Failure => "31"@,
    }
}

/// `text` wrapped in the escape codes that color it and reset the color.
pub open spec fn paint(a: Accent, text: Seq<char>) -> Seq<char> {
    "\x1b["@ + accent_code(a) + "m"@ + text + "\x1b[0m"@
}

/// `text` colored and struck through.
pub open spec fn paint_struck(a: Accent, text: Seq<char>) -> Seq<char> {
    "\x1b["@ + accent_code(a) + ";9m"@ + text + "\x1b[0m"@
}

impl Accent {
    pub fn code(self) -> (s: &'static str)
        ensures
            s@ == accent_code(self),
    {
        match self {
            Accent::HeadMarker => "34",
            Accent::CommitHash => "33",
            Accent::BranchRef => "32",
            Accent::TagRef => "33",
            Accent::InFlight => "36",
            Accent::Success => "32",
            Accent::Failure => "31",
        }
    }

    pub fn paint_ansi(self, text: &str) -> (s: String)
        ensures
            s@ == paint(self, text@),
    {
        let mut s = String::from_str("\x1b[");
        s.append(self.code());
        s.append("m");
        s.append(text);
        s.append("\x1b[0m");
        s
    }

    pub fn paint_struck_ansi(self, text: &str) -> (s: String)
        ensures
            s@ == paint_struck(self, text@),
    {
        let mut s = String::from_str("\x1b[");
        s.append(self.code());
        s.append(";9m");
        s.append(text);
        s.append("\x1b[0m");
        s
    }
}

/// Whether an answer to a yes/no prompt accepts: `y` or `yes` (lower case, capitalised or all upper
/// case for `yes`), with whitespace around it ignored.
pub open spec fn accepts(answer: Seq<char>) -> bool {
    let a = trim(answer);
    a == "y"@ || a == "Y"@ || a == "yes"@ || a == "YES"@ || a == "Yes"@
}

pub fn is_yes_answer(input: &str) -> (r: bool)
    ensures
        r == accepts(input@),
{
    let a = trim_str(input);
    let a = a.as_str();
    str_eq(a, "y") || str_eq(a, "Y") || str_eq(a, "yes") || str_eq(a, "YES") || str_eq(a, "Yes")
}

} // verus!
