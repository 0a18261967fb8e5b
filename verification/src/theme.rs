//! Named colour themes for screensavers.

use vstd::prelude::*;

use crate::text::{chars_equal, str_chars};

verus! {

/// A named colour theme.
#[derive(Debug, Clone, Copy, PartialEq, Eq, Structural)]
pub enum Theme {
    Synthwave,
    Cyberpunk,
    Neon,
    Aurora,
    Monokai,
    Matrix,
}

impl Default for Theme {
    fn default() -> (t: Self)
        ensures
            t == Theme::Synthwave,
    {
        Theme::Synthwave
    }
}

/// The three accent colours of each theme.
pub open spec fn theme_palette(t: Theme) -> Seq<(u8, u8, u8)> {
    match t {
        Theme::Synthwave => seq![(255u8, 0u8, 102u8), (0, 255, 255), (255, 153, 0)],
        Theme::Cyberpunk => seq![(255u8, 255u8, 0u8), (0, 255, 255), (255, 0, 255)],
        Theme::Neon => seq![(0u8, 255u8, 0u8), (255, 0, 255), (0, 255, 255)],
        Theme::Aurora => seq![(0u8, 255u8, 127u8), (127, 0, 255), (0, 127, 255)],
        Theme::Monokai => seq![(249u8, 38u8, 114u8), (166, 226, 46), (102, 217, 239)],
        Theme::Matrix => seq![(0u8, 255u8, 0u8), (0, 200, 0), (0, 150, 0)],
    }
}

/// The lower-case name of each theme.
pub open spec fn theme_name(t: Theme) -> Seq<char> {
    match t {
        Theme::Synthwave => seq!['s', 'y', 'n', 't', 'h', 'w', 'a', 'v', 'e'],
        Theme::Cyberpunk => seq!['c', 'y', 'b', 'e', 'r', 'p', 'u', 'n', 'k'],
        Theme::Neon => seq!['n', 'e', 'o', 'n'],
        Theme::Aurora => seq!['a', 'u', 'r', 'o', 'r', 'a'],
        Theme::Monokai => seq!['m', 'o', 'n', 'o', 'k', 'a', 'i'],
        Theme::Matrix => seq!['m', 'a', 't', 'r', 'i', 'x'],
    }
}

/// `str::to_lowercase`: the Unicode lower-case mapping of a string.
pub uninterp spec fn lowercase(s: Seq<char>) -> Seq<char>;

/// Whether every character of `s` is ASCII.
pub open spec fn is_ascii(s: Seq<char>) -> bool {
    forall|i: int| 0 <= i < s.len() ==> (#[trigger] s[i] as u32) < 128
}

/// The ASCII lower-case form of `c` (`A`-`Z` to `a`-`z`, others unchanged).
pub open spec fn ascii_lower_char(c: char) -> char {
    if 'A' <= c <= 'Z' {
        ((c as u32) + 32) as char
    } else {
        c
    }
}

/// `s` with each ASCII capital made lower case.
pub open spec fn ascii_lowercase(s: Seq<char>) -> Seq<char> {
    s.map_values(|c: char| ascii_lower_char(c))
}

/// `str::to_lowercase` on `s`. Its result is named [`lowercase`] (a function
/// of the characters of `s` alone, given by Unicode's case tables); for an
/// all-ASCII string it is the ASCII lower-case mapping, as the Unicode tables
/// give `A`-`Z` the lower-case forms `a`-`z` and leave other ASCII alone.
#[verifier::external_body]
fn to_lowercase(s: &str) -> (r: String)
    ensures
        r@ == lowercase(s@),
        is_ascii(s@) ==> r@ == ascii_lowercase(s@),
{
    s.to_lowercase()
}

/// The theme whose name is `lower`, if any.
pub open spec fn theme_named(lower: Seq<char>) -> Option<Theme> {
    if lower == theme_name(Theme::Synthwave) {
        Some(Theme::Synthwave)
    } else if lower == theme_name(Theme::Cyberpunk) {
        Some(Theme::Cyberpunk)
    } else if lower == theme_name(Theme::Neon) {
        Some(Theme::Neon)
    } else if lower == theme_name(Theme::Aurora) {
        Some(Theme::Aurora)
    } else if lower == theme_name(Theme::Monokai) {
        Some(Theme::Monokai)
    } else if lower == theme_name(Theme::Matrix) {
        Some(Theme::Matrix)
    } else {
        None
    }
}

impl Theme {
    /// The theme's three accent colours.
    pub fn palette(&self) -> (p: Vec<(u8, u8, u8)>)
        ensures
            p@ == theme_palette(*self),
    {
        let p = match self {
            Theme::Synthwave => vec![(255u8, 0u8, 102u8), (0, 255, 255), (255, 153, 0)],
            Theme::Cyberpunk => vec![(255u8, 255u8, 0u8), (0, 255, 255), (255, 0, 255)],
            Theme::Neon => vec![(0u8, 255u8, 0u8), (255, 0, 255), (0, 255, 255)],
            Theme::Aurora => vec![(0u8, 255u8, 127u8), (127, 0, 255), (0, 127, 255)],
            Theme::Monokai => vec![(249u8, 38u8, 114u8), (166, 226, 46), (102, 217, 239)],
            Theme::Matrix => vec![(0u8, 255u8, 0u8), (0, 200, 0), (0, 150, 0)],
        };
        assert(p@ =~= theme_palette(*self));
        p
    }

    /// The theme's lower-case name.
    pub fn name(&self) -> (n: Vec<char>)
        ensures
            n@ == theme_name(*self),
    {
        let n = match self {
            Theme::Synthwave => vec!['s', 'y', 'n', 't', 'h', 'w', 'a', 'v', 'e'],
            Theme::Cyberpunk => vec!['c', 'y', 'b', 'e', 'r', 'p', 'u', 'n', 'k'],
            Theme::Neon => vec!['n', 'e', 'o', 'n'],
            Theme::Aurora => vec!['a', 'u', 'r', 'o', 'r', 'a'],
            Theme::Monokai => vec!['m', 'o', 'n', 'o', 'k', 'a', 'i'],
            Theme::Matrix => vec!['m', 'a', 't', 'r', 'i', 'x'],
        };
        assert(n@ =~= theme_name(*self));
        n
    }

    /// The theme's lower-case name as a `String` (what it displays as).
    pub fn to_string(&self) -> (s: String)
        ensures
            s@ == theme_name(*self),
    {
        let n = self.name();
        crate::text::string_from_chars(&n)
    }

    /// The theme whose lower-case name is exactly `name`, if any.
    pub fn named(name: &str) -> (t: Option<Theme>)
        ensures
            t == theme_named(name@),
    {
        let chars = str_chars(name);
        let all = [Theme::Synthwave, Theme::Cyberpunk, Theme::Neon, Theme::Aurora, Theme::Monokai, Theme::Matrix];
        let mut k: usize = 0;
        while k < 6
            invariant
                k <= 6,
                all@ == seq![Theme::Synthwave, Theme::Cyberpunk, Theme::Neon, Theme::Aurora, Theme::Monokai, Theme::Matrix],
                chars@ == name@,
                forall|j: int| 0 <= j < k ==> theme_name(#[trigger] all@[j]) != chars@,
            decreases 6 - k,
        {
            let n = all[k].name();
            if chars_equal(&chars, n.as_slice()) {
                return Some(all[k]);
            }
            k = k + 1;
        }
        assert(theme_name(all@[0]) != chars@);
        assert(theme_name(all@[1]) != chars@);
        assert(theme_name(all@[2]) != chars@);
        assert(theme_name(all@[3]) != chars@);
        assert(theme_name(all@[4]) != chars@);
        assert(theme_name(all@[5]) != chars@);
        None
    }

    /// Parse a theme name, ignoring case.
    pub fn parse(s: &str) -> (t: Option<Theme>)
        ensures
            t == theme_named(lowercase(s@)),
            is_ascii(s@) ==> t == theme_named(ascii_lowercase(s@)),
    {
        let lower = to_lowercase(s);
        Self::named(lower.as_str())
    }
}

impl std::str::FromStr for Theme {
    type Err = ();

    fn from_str(s: &str) -> (r: Result<Self, Self::Err>)
        ensures
            r == match theme_named(lowercase(s@)) {
                Some(t) => Ok::<Theme, ()>(t),
                None => Err::<Theme, ()>(()),
            },
            is_ascii(s@) ==> r == match theme_named(ascii_lowercase(s@)) {
                Some(t) => Ok::<Theme, ()>(t),
                None => Err::<Theme, ()>(()),
            },
    {
        match Theme::parse(s) {
            Some(t) => Ok(t),
            None => Err(()),
        }
    }
}

} // verus!
