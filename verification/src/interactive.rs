//! The answers the interactive control panel accepts: menu choices, saver
//! and timeout selections, and one-based list indices.
//!
//! Prompting and reading lines happen outside.

use vstd::prelude::*;

use crate::text::{chars_equal, decimal, decimal_chars, parse_unsigned, parse_usize, str_chars, string_from_chars, trim_chars, trimmed};

verus! {

/// An entry of the main menu.
#[derive(Clone, Copy, Debug, PartialEq, Eq, Structural)]
pub enum MenuAction {
    ToggleIdle,
    SetTimeout,
    SetSaver,
    Preview,
    ToggleFps,
    Stop,
    Quit,
}

/// The menu entry a (trimmed) answer picks: `1` to `7` in menu order.
pub open spec fn menu_action_spec(answer: Seq<char>) -> Option<MenuAction> {
    let a = trimmed(answer);
    if a == "1"@ {
        Some(MenuAction::ToggleIdle)
    } else if a == "2"@ {
        Some(MenuAction::SetTimeout)
    } else if a == "3"@ {
        Some(MenuAction::SetSaver)
    } else if a == "4"@ {
        Some(MenuAction::Preview)
    } else if a == "5"@ {
        Some(MenuAction::ToggleFps)
    } else if a == "6"@ {
        Some(MenuAction::Stop)
    } else if a == "7"@ {
        Some(MenuAction::Quit)
    } else {
        None
    }
}

/// The trimmed characters of `s` as a `String`.
fn trimmed_string(s: &str) -> (r: String)
    ensures
        r@ == trimmed(s@),
{
    let chars = str_chars(s);
    let t = trim_chars(&chars);
    string_from_chars(&t)
}

/// Whether `s` is exactly `w`.
fn same_text(s: &String, w: &str) -> (r: bool)
    ensures
        r == (s@ == w@),
{
    let a = str_chars(s.as_str());
    let b = str_chars(w);
    chars_equal(&a, b.as_slice())
}

/// The menu entry an answer picks, if any.
pub fn menu_action(answer: &str) -> (r: Option<MenuAction>)
    ensures
        r == menu_action_spec(answer@),
{
    let a = trimmed_string(answer);
    if same_text(&a, "1") {
        Some(MenuAction::ToggleIdle)
    } else if same_text(&a, "2") {
        Some(MenuAction::SetTimeout)
    } else if same_text(&a, "3") {
        Some(MenuAction::SetSaver)
    } else if same_text(&a, "4") {
        Some(MenuAction::Preview)
    } else if same_text(&a, "5") {
        Some(MenuAction::ToggleFps)
    } else if same_text(&a, "6") {
        Some(MenuAction::Stop)
    } else if same_text(&a, "7") {
        Some(MenuAction::Quit)
    } else {
        None
    }
}

/// A one-based index in `1..=len` from a user answer (surrounding whitespace ignored).
pub open spec fn one_based_index_spec(raw: Seq<char>, len: nat) -> Option<nat> {
    match parse_unsigned(trimmed(raw), usize::MAX as nat) {
        Some(i) => if 1 <= i <= len {
            Some(i)
        } else {
            None
        },
        None => None,
    }
}

/// Parse a 1-based index in `1..=len` from a user answer.
pub fn parse_one_based_index(raw: &str, len: usize) -> (r: Option<usize>)
    ensures
        match r {
            Some(i) => one_based_index_spec(raw@, len as nat) == Some(i as nat),
            None => one_based_index_spec(raw@, len as nat) is None,
        },
{
    let t = trimmed_string(raw);
    match parse_usize(t.as_str()) {
        Some(i) => {
            if 1 <= i && i <= len {
                Some(i)
            } else {
                None
            }
        },
        None => None,
    }
}

/// What an answer to the saver prompt selects.
#[derive(Debug)]
pub enum SaverChoice {
    /// `0`: let the daemon pick at random.
    Random,
    /// `1` to the number of savers: that saver.
    Saver(String),
    /// A number past the end of the list.
    OutOfRange,
    /// Not a number.
    NotNumber,
}

impl SaverChoice {
    /// What the panel prints after the choice (nothing when the answer was
    /// not a number).
    pub fn message(&self) -> (m: Option<String>)
        ensures
            match self {
                SaverChoice::Random => m matches Some(t) && t@ == "Active screensaver set to: random"@,
                SaverChoice::Saver(name) => m matches Some(t) && t@ == "Active screensaver set to: "@
                    + name@,
                SaverChoice::OutOfRange => m matches Some(t) && t@ == "Invalid choice."@,
                SaverChoice::NotNumber => m is None,
            },
    {
        match self {
            SaverChoice::Random => Some("Active screensaver set to: random".to_string()),
            SaverChoice::Saver(name) => {
                let mut t = String::new();
                t.append("Active screensaver set to: ");
                t.append(name.as_str());
                Some(t)
            },
            SaverChoice::OutOfRange => Some("Invalid choice.".to_string()),
            SaverChoice::NotNumber => None,
        }
    }
}

/// Interpret an answer to the saver prompt against the listed `savers`.
pub fn saver_choice(answer: &str, savers: &Vec<String>) -> (r: SaverChoice)
    ensures
        match parse_unsigned(trimmed(answer@), usize::MAX as nat) {
            None => r is NotNumber,
            Some(i) => if i == 0 {
                r is Random
            } else if i <= savers@.len() {
                r matches SaverChoice::Saver(name) && name == savers@[i - 1]
            } else {
                r is OutOfRange
            },
        },
{
    let t = trimmed_string(answer);
    match parse_usize(t.as_str()) {
        Some(i) => {
            if i == 0 {
                SaverChoice::Random
            } else if i <= savers.len() {
                SaverChoice::Saver(savers[i - 1].clone())
            } else {
                SaverChoice::OutOfRange
            }
        },
        None => SaverChoice::NotNumber,
    }
}

/// What an answer to the timeout prompt asks for.
#[derive(Clone, Copy, Debug, PartialEq, Eq, Structural)]
pub enum TimeoutChoice {
    /// A timeout in minutes, 1 to 240.
    Minutes(u32),
    /// A number outside 1 to 240.
    OutOfRange,
    /// Not a number.
    Invalid,
}

impl TimeoutChoice {
    /// What the panel prints after the answer.
    pub fn message(&self) -> (m: String)
        ensures
            m@ == match self {
                TimeoutChoice::Minutes(n) => "Timeout updated to "@ + decimal(*n as nat) + " minutes."@,
                TimeoutChoice::OutOfRange => "Invalid range (must be 1-240)."@,
                TimeoutChoice::Invalid => "Invalid input."@,
            },
    {
        match self {
            TimeoutChoice::Minutes(n) => {
                let digits = decimal_chars(*n as u64);
                let mut t = String::new();
                t.append("Timeout updated to ");
                t.append(string_from_chars(&digits).as_str());
                t.append(" minutes.");
                t
            },
            TimeoutChoice::OutOfRange => "Invalid range (must be 1-240).".to_string(),
            TimeoutChoice::Invalid => "Invalid input.".to_string(),
        }
    }
}

/// Interpret an answer to the timeout prompt.
pub fn timeout_choice(answer: &str) -> (r: TimeoutChoice)
    ensures
        r == match parse_unsigned(trimmed(answer@), u32::MAX as nat) {
            Some(m) => if 1 <= m <= 240 {
                TimeoutChoice::Minutes(m as u32)
            } else {
                TimeoutChoice::OutOfRange
            },
            None => TimeoutChoice::Invalid,
        },
{
    let t = trimmed_string(answer);
    match crate::cli::parse_u32(t.as_str()) {
        Some(m) => {
            if 1 <= m && m <= 240 {
                TimeoutChoice::Minutes(m)
            } else {
                TimeoutChoice::OutOfRange
            }
        },
        None => TimeoutChoice::Invalid,
    }
}

/// The version a package query printed: its trimmed output, unless the
/// query failed, printed nothing, or printed `reject` somewhere.
pub open spec fn package_hint_spec(success: bool, output: Seq<char>, reject: Option<Seq<char>>) -> Option<
    Seq<char>,
> {
    let s = trimmed(output);
    if !success || s.len() == 0 {
        None
    } else {
        match reject {
            Some(bad) => if contains_seq(s, bad) {
                None
            } else {
                Some(s)
            },
            None => Some(s),
        }
    }
}

/// `needle` occurs somewhere in `hay`.
pub open spec fn contains_seq(hay: Seq<char>, needle: Seq<char>) -> bool {
    exists|i: int| 0 <= i && i + needle.len() <= hay.len() && #[trigger] hay.subrange(i, i + needle.len()) == needle
}

/// Whether `needle` occurs in `hay`.
fn contains_text(hay: &Vec<char>, needle: &Vec<char>) -> (r: bool)
    ensures
        r == contains_seq(hay@, needle@),
{
    if needle.len() > hay.len() {
        return false;
    }
    let limit = hay.len() - needle.len();
    let mut i: usize = 0;
    loop
        invariant
            needle@.len() <= hay@.len(),
            limit == hay@.len() - needle@.len(),
            i <= limit,
            forall|j: int| 0 <= j < i ==> #[trigger] hay@.subrange(j, j + needle@.len()) != needle@,
        decreases limit - i,
    {
        if crate::text::chars_match_at(hay, i, needle.as_slice()) {
            return true;
        }
        if i == limit {
            return false;
        }
        i = i + 1;
    }
}

/// The package version reported by a query that exited with `success` and
/// printed `output` (see [`package_hint_spec`]).
pub fn package_hint(success: bool, output: &str, reject: Option<&str>) -> (r: Option<String>)
    ensures
        match r {
            Some(v) => package_hint_spec(success, output@, crate::text::opt_view(reject)) == Some(v@),
            None => package_hint_spec(success, output@, crate::text::opt_view(reject)) is None,
        },
{
    if !success {
        return None;
    }
    let chars = str_chars(output);
    let t = trim_chars(&chars);
    if t.len() == 0 {
        return None;
    }
    match reject {
        Some(bad) => {
            let b = str_chars(bad);
            if contains_text(&t, &b) {
                return None;
            }
        },
        None => {},
    }
    Some(string_from_chars(&t))
}

} // verus!
