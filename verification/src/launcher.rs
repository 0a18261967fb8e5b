//! Screensaver plugin names: the allowlist, name clean-up and trusted
//! library candidate names.

use vstd::prelude::*;

use crate::text::{chars_contain, chars_equal, push_all, chars_slice, chars_start_with, split_on, str_chars, string_from_chars, starts_with};

verus! {

/// The `/`-separated segments of `s`, in order (an empty path has one empty segment).
pub open spec fn slash_segments(s: Seq<char>) -> Seq<Seq<char>> {
    split_on(s, '/')
}

/// A segment that names a file or directory (not empty and not `.`).
pub open spec fn is_named_segment(seg: Seq<char>) -> bool {
    seg.len() > 0 && seg != seq!['.']
}

/// The last named segment among `segs`.
pub open spec fn last_named(segs: Seq<Seq<char>>) -> Option<Seq<char>>
    decreases segs.len(),
{
    if segs.len() == 0 {
        None
    } else if is_named_segment(segs.last()) {
        Some(segs.last())
    } else {
        last_named(segs.drop_last())
    }
}

/// The final component of a Unix path, unless it is `..` (or there is none).
pub open spec fn path_file_name(s: Seq<char>) -> Option<Seq<char>> {
    match last_named(slash_segments(s)) {
        Some(name) => if name == seq!['.', '.'] {
            None
        } else {
            Some(name)
        },
        None => None,
    }
}

/// Index of the last `.` in `s`, or -1.
pub open spec fn last_dot(s: Seq<char>) -> int
    decreases s.len(),
{
    if s.len() == 0 {
        -1
    } else if s.last() == '.' {
        s.len() - 1
    } else {
        last_dot(s.drop_last())
    }
}

/// A file name without its final extension; names whose only dot is the first
/// character keep it.
pub open spec fn name_stem(name: Seq<char>) -> Seq<char> {
    if last_dot(name) <= 0 {
        name
    } else {
        name.take(last_dot(name))
    }
}

/// `Path::new(s).file_stem()`, falling back to the whole input when there is none.
pub open spec fn stem_or_raw(s: Seq<char>) -> Seq<char> {
    match path_file_name(s) {
        Some(name) => name_stem(name),
        None => s,
    }
}

pub open spec fn lib_saver_prefix() -> Seq<char> {
    seq!['l', 'i', 'b', 's', 'c', 'r', 'e', 'e', 'n', 's', 'a', 'v', 'e', 'r', '_']
}

pub open spec fn lib_prefix() -> Seq<char> {
    seq!['l', 'i', 'b']
}

pub open spec fn screensaver_dash_prefix() -> Seq<char> {
    seq!['s', 'c', 'r', 'e', 'e', 'n', 's', 'a', 'v', 'e', 'r', '-']
}

pub open spec fn package_prefix() -> Seq<char> {
    seq!['i', 'd', 'l', 'e', '-', 's', 'a', 'v', 'e', 'r', '-']
}

/// `s` without `p` in front, when it is there.
pub open spec fn strip(s: Seq<char>, p: Seq<char>) -> Seq<char> {
    if starts_with(s, p) {
        s.skip(p.len() as int)
    } else {
        s
    }
}

/// The stem with one library prefix (`libscreensaver_`, else `lib`), then
/// `screensaver-`, then `idle-saver-` removed.
pub open spec fn stripped_stem(raw: Seq<char>) -> Seq<char> {
    let stem = stem_or_raw(raw);
    let a = if starts_with(stem, lib_saver_prefix()) {
        stem.skip(lib_saver_prefix().len() as int)
    } else {
        strip(stem, lib_prefix())
    };
    strip(strip(a, screensaver_dash_prefix()), package_prefix())
}

/// ASCII letter, digit or `-`.
pub open spec fn is_saver_name_char(c: char) -> bool {
    ('a' <= c <= 'z') || ('A' <= c <= 'Z') || ('0' <= c <= '9') || c == '-'
}

/// The clean basename of a raw saver name or path, if it is a valid one.
pub open spec fn sanitized(raw: Seq<char>) -> Option<Seq<char>> {
    let stem = stripped_stem(raw);
    if stem.len() > 0 && forall|i: int| 0 <= i < stem.len() ==> is_saver_name_char(#[trigger] stem[i]) {
        Some(stem)
    } else {
        None
    }
}

/// The last named segment of `v` (as in [`path_file_name`] before the `..` check).
fn last_named_segment(v: &Vec<char>) -> (r: Option<Vec<char>>)
    ensures
        match r {
            Some(seg) => last_named(slash_segments(v@)) == Some(seg@),
            None => last_named(slash_segments(v@)) is None,
        },
{
    let mut done_last: Option<Vec<char>> = None;
    let mut cur: Vec<char> = Vec::new();
    let ghost mut done: Seq<Seq<char>> = Seq::empty();
    let mut i: usize = 0;
    while i < v.len()
        invariant
            i <= v@.len(),
            slash_segments(v@.take(i as int)) == done.push(cur@),
            match done_last {
                Some(seg) => last_named(done) == Some(seg@),
                None => last_named(done) is None,
            },
        decreases v@.len() - i,
    {
        let c = v[i];
        let ghost prefix = v@.take(i + 1);
        assert(prefix.drop_last() =~= v@.take(i as int));
        if c == '/' {
            proof {
                let new_done = done.push(cur@);
                assert(new_done.drop_last() =~= done);
                done = new_done;
            }
            let dot = ['.'];
            if cur.len() > 0 && !chars_equal(&cur, dot.as_slice()) {
                assert(dot@ == seq!['.']);
                done_last = Some(cur);
            } else {
                assert(dot@ == seq!['.']);
                assert(done.drop_last() =~= done.drop_last());
            }
            cur = Vec::new();
            assert(slash_segments(prefix) =~= done.push(cur@));
        } else {
            let ghost old_cur = cur@;
            cur.push(c);
            assert(slash_segments(prefix) =~= done.push(cur@));
        }
        i = i + 1;
    }
    assert(v@.take(v@.len() as int) =~= v@);
    let dot = ['.'];
    assert(dot@ == seq!['.']);
    let segs = Ghost(done.push(cur@));
    assert(segs@.drop_last() =~= done);
    if cur.len() > 0 && !chars_equal(&cur, dot.as_slice()) {
        Some(cur)
    } else {
        done_last
    }
}

/// The last dot lies inside the sequence.
pub proof fn lemma_last_dot_bound(s: Seq<char>)
    ensures
        -1 <= last_dot(s) < s.len(),
        last_dot(s) >= 0 ==> s[last_dot(s)] == '.',
    decreases s.len(),
{
    if s.len() > 0 && s.last() != '.' {
        lemma_last_dot_bound(s.drop_last());
    }
}

/// Index of the last `.` in `v`, if any.
fn find_last_dot(v: &Vec<char>) -> (r: Option<usize>)
    ensures
        match r {
            Some(i) => last_dot(v@) == i,
            None => last_dot(v@) == -1,
        },
{
    let mut i = v.len();
    assert(v@.take(i as int) =~= v@);
    while i > 0
        invariant
            i <= v@.len(),
            last_dot(v@) == last_dot(v@.take(i as int)),
        decreases i,
    {
        assert(v@.take(i as int).drop_last() =~= v@.take(i - 1));
        if v[i - 1] == '.' {
            return Some(i - 1);
        }
        i = i - 1;
    }
    None
}

/// `Path::new(raw).file_stem()`, or `raw` itself when the path has no file name.
fn stem_of(raw: &Vec<char>) -> (r: Vec<char>)
    ensures
        r@ == stem_or_raw(raw@),
{
    match last_named_segment(raw) {
        Some(name) => {
            let dotdot = ['.', '.'];
            assert(dotdot@ == seq!['.', '.']);
            if chars_equal(&name, dotdot.as_slice()) {
                return chars_slice(raw, 0, raw.len());
            }
            proof {
                lemma_last_dot_bound(name@);
            }
            match find_last_dot(&name) {
                Some(d) => {
                    if d == 0 {
                        name
                    } else {
                        chars_slice(&name, 0, d)
                    }
                },
                None => name,
            }
        },
        None => chars_slice(raw, 0, raw.len()),
    }
}

/// `v` with `p` removed from the front when it is there.
fn strip_prefix_chars(v: Vec<char>, p: &[char]) -> (r: Vec<char>)
    ensures
        r@ == strip(v@, p@),
{
    if chars_start_with(&v, p) {
        chars_slice(&v, p.len(), v.len())
    } else {
        v
    }
}

fn saver_name_char(c: char) -> (r: bool)
    ensures
        r == is_saver_name_char(c),
{
    ('a' <= c && c <= 'z') || ('A' <= c && c <= 'Z') || ('0' <= c && c <= '9') || c == '-'
}

/// Reduce a raw name or path to a clean basename, if valid.
pub fn sanitize_saver_name(raw: &str) -> (r: Option<String>)
    ensures
        match r {
            Some(name) => sanitized(raw@) == Some(name@),
            None => sanitized(raw@) is None,
        },
{
    let chars = str_chars(raw);
    let stem = stem_of(&chars);
    let lib_saver = ['l', 'i', 'b', 's', 'c', 'r', 'e', 'e', 'n', 's', 'a', 'v', 'e', 'r', '_'];
    let lib = ['l', 'i', 'b'];
    let dash = ['s', 'c', 'r', 'e', 'e', 'n', 's', 'a', 'v', 'e', 'r', '-'];
    let package = ['i', 'd', 'l', 'e', '-', 's', 'a', 'v', 'e', 'r', '-'];
    assert(lib_saver@ == lib_saver_prefix());
    assert(lib@ == lib_prefix());
    assert(dash@ == screensaver_dash_prefix());
    assert(package@ == package_prefix());
    let ghost raw_stem = stem@;
    let stem = if chars_start_with(&stem, lib_saver.as_slice()) {
        let s = chars_slice(&stem, 15, stem.len());
        assert(s@ =~= raw_stem.skip(15));
        s
    } else {
        strip_prefix_chars(stem, lib.as_slice())
    };
    let stem = strip_prefix_chars(stem, dash.as_slice());
    let stem = strip_prefix_chars(stem, package.as_slice());
    assert(stem@ == stripped_stem(raw@));
    let mut i: usize = 0;
    while i < stem.len()
        invariant
            i <= stem@.len(),
            stem@ == stripped_stem(raw@),
            forall|j: int| 0 <= j < i ==> is_saver_name_char(#[trigger] stem@[j]),
        decreases stem@.len() - i,
    {
        if !saver_name_char(stem[i]) {
            assert(!is_saver_name_char(stem@[i as int]));
            assert(sanitized(raw@) is None);
            return None;
        }
        i = i + 1;
    }
    if stem.len() == 0 {
        assert(sanitized(raw@) is None);
        return None;
    }
    Some(string_from_chars(&stem))
}

/// Built-in screensaver names, in catalogue order.
pub open spec fn allowed_saver_names() -> Seq<Seq<char>> {
    seq![
        seq!['b', 'e', 'a', 'm', 's'],
        seq!['b', 'u', 'r', 's', 't', 's'],
        seq!['c', 'h', 'a', 'o', 's'],
        seq!['c', 'o', 's', 'm', 'o', 's'],
        seq!['g', 'l', 'y', 'p', 'h', 's'],
        seq!['g', 'n', 'a', 't', 's'],
        seq!['r', 'a', 'd', 'a', 'r'],
        seq!['s', 't', 'o', 'r', 'm'],
        seq!['h', 'e', 'a', 'r', 't', 'h'],
        seq!['r', 'i', 'p', 'p', 'l', 'e'],
    ]
}

/// Number of built-in screensavers.
pub const ALLOWED_SAVER_COUNT: usize = 10;

/// The characters of the `k`-th built-in screensaver name.
fn allowed_saver_chars(k: usize) -> (v: Vec<char>)
    requires
        k < 10,
    ensures
        v@ == allowed_saver_names()[k as int],
{
    let v = match k {
        0 => vec!['b', 'e', 'a', 'm', 's'],
        1 => vec!['b', 'u', 'r', 's', 't', 's'],
        2 => vec!['c', 'h', 'a', 'o', 's'],
        3 => vec!['c', 'o', 's', 'm', 'o', 's'],
        4 => vec!['g', 'l', 'y', 'p', 'h', 's'],
        5 => vec!['g', 'n', 'a', 't', 's'],
        6 => vec!['r', 'a', 'd', 'a', 'r'],
        7 => vec!['s', 't', 'o', 'r', 'm'],
        8 => vec!['h', 'e', 'a', 'r', 't', 'h'],
        _ => vec!['r', 'i', 'p', 'p', 'l', 'e'],
    };
    assert(v@ =~= allowed_saver_names()[k as int]);
    v
}

/// Whether `name` (already cleaned) is one of the built-in screensavers.
fn is_allowed_clean(name: &Vec<char>) -> (r: bool)
    ensures
        r == allowed_saver_names().contains(name@),
{
    let mut k: usize = 0;
    while k < ALLOWED_SAVER_COUNT
        invariant
            k <= 10,
            forall|j: int| 0 <= j < k ==> allowed_saver_names()[j] != name@,
        decreases 10 - k,
    {
        let candidate = allowed_saver_chars(k);
        if chars_equal(name, candidate.as_slice()) {
            assert(allowed_saver_names()[k as int] == name@);
            return true;
        }
        k = k + 1;
    }
    assert forall|j: int| 0 <= j < allowed_saver_names().len() implies allowed_saver_names()[j]
        != name@ by {}
    false
}

/// The built-in screensaver names, in catalogue order.
pub fn allowed_savers() -> (v: Vec<String>)
    ensures
        v@.len() == allowed_saver_names().len(),
        forall|k: int| 0 <= k < v@.len() ==> #[trigger] v@[k]@ == allowed_saver_names()[k],
{
    let mut v: Vec<String> = Vec::new();
    let mut k: usize = 0;
    while k < ALLOWED_SAVER_COUNT
        invariant
            k <= 10,
            v@.len() == k,
            forall|j: int| 0 <= j < k ==> #[trigger] v@[j]@ == allowed_saver_names()[j],
        decreases 10 - k,
    {
        let chars = allowed_saver_chars(k);
        v.push(string_from_chars(&chars));
        k = k + 1;
    }
    v
}

/// Whether a raw name is a plain name (no path separators) that cleans to a built-in saver.
pub open spec fn is_allowed_saver_spec(name: Seq<char>) -> bool {
    &&& !name.contains('/')
    &&& !name.contains('\\')
    &&& match sanitized(name) {
        Some(clean) => allowed_saver_names().contains(clean),
        None => false,
    }
}

/// Whether `name` resolves to a built-in screensaver package.
pub fn is_allowed_saver(name: &str) -> (r: bool)
    ensures
        r == is_allowed_saver_spec(name@),
{
    let chars = str_chars(name);
    if chars_contain(&chars, '/') || chars_contain(&chars, '\\') {
        return false;
    }
    match sanitize_saver_name(name) {
        Some(clean) => {
            let clean_chars = str_chars(clean.as_str());
            is_allowed_clean(&clean_chars)
        },
        None => false,
    }
}

/// Why a saver name was refused.
#[derive(Debug)]
pub enum SaverNameError {
    /// The name contains `/` or `\\`.
    IsPath(String),
    /// The name does not clean to a valid basename.
    Invalid(String),
    /// The clean name is not a built-in screensaver.
    NotAllowed(String),
}

/// The message shown to users for a refusal of a saver name.
pub open spec fn saver_name_error_text(e: SaverNameError) -> Seq<char> {
    match e {
        SaverNameError::IsPath(name) => "saver name must not be a path: "@ + name@,
        SaverNameError::Invalid(name) => "unknown or invalid screensaver name: "@ + name@,
        SaverNameError::NotAllowed(name) => "screensaver '"@ + name@ + "' is not in the trusted allowlist"@,
    }
}

impl SaverNameError {
    /// The message shown to users for this refusal.
    pub fn message(&self) -> (m: String)
        ensures
            m@ == saver_name_error_text(*self),
    {
        match self {
            SaverNameError::IsPath(name) => {
                let mut m = String::new();
                m.append("saver name must not be a path: ");
                m.append(name.as_str());
                m
            },
            SaverNameError::Invalid(name) => {
                let mut m = String::new();
                m.append("unknown or invalid screensaver name: ");
                m.append(name.as_str());
                m
            },
            SaverNameError::NotAllowed(name) => {
                let mut m = String::new();
                m.append("screensaver '");
                m.append(name.as_str());
                m.append("' is not in the trusted allowlist");
                m
            },
        }
    }
}

/// `e` is the refusal that the saver name `name` earns.
pub open spec fn refusal_fits(name: Seq<char>, e: SaverNameError) -> bool {
    match e {
        SaverNameError::IsPath(n) => n@ == name && (name.contains('/') || name.contains('\\')),
        SaverNameError::Invalid(n) => n@ == name && !name.contains('/') && !name.contains('\\')
            && sanitized(name) is None,
        SaverNameError::NotAllowed(n) => !name.contains('/') && !name.contains('\\') && sanitized(name)
            == Some(n@) && !allowed_saver_names().contains(n@),
    }
}

/// Validate that `name` is not a path and maps to a clean allowlisted basename.
pub fn cleaned_allowed_name(name: &str) -> (r: Result<String, SaverNameError>)
    ensures
        match r {
            Ok(c) => is_allowed_saver_spec(name@) && sanitized(name@) == Some(c@),
            Err(e) => refusal_fits(name@, e),
        },
        r is Ok <==> is_allowed_saver_spec(name@),
{
    let chars = str_chars(name);
    if chars_contain(&chars, '/') || chars_contain(&chars, '\\') {
        return Err(SaverNameError::IsPath(name.to_owned()));
    }
    let clean = match sanitize_saver_name(name) {
        Some(c) => c,
        None => {
            return Err(SaverNameError::Invalid(name.to_owned()));
        },
    };
    let clean_chars = str_chars(clean.as_str());
    if !is_allowed_clean(&clean_chars) {
        return Err(SaverNameError::NotAllowed(clean));
    }
    Ok(clean)
}

/// Candidate library basenames for a cleaned saver name under a plugin directory.
pub fn plugin_candidate_names(clean: &str) -> (names: Vec<String>)
    ensures
        names@.len() == 3,
        names@[0]@ == lib_saver_prefix() + clean@ + seq!['.', 's', 'o'],
        names@[1]@ == lib_prefix() + clean@ + seq!['.', 's', 'o'],
        names@[2]@ == clean@,
{
    let lib_saver = ['l', 'i', 'b', 's', 'c', 'r', 'e', 'e', 'n', 's', 'a', 'v', 'e', 'r', '_'];
    let lib = ['l', 'i', 'b'];
    assert(lib_saver@ == lib_saver_prefix());
    assert(lib@ == lib_prefix());
    let clean_chars = str_chars(clean);
    let mut first: Vec<char> = Vec::new();
    push_all(&mut first, lib_saver.as_slice());
    push_all(&mut first, clean_chars.as_slice());
    first.push('.');
    first.push('s');
    first.push('o');
    let mut second: Vec<char> = Vec::new();
    push_all(&mut second, lib.as_slice());
    push_all(&mut second, clean_chars.as_slice());
    second.push('.');
    second.push('s');
    second.push('o');
    assert(first@ =~= lib_saver_prefix() + clean@ + seq!['.', 's', 'o']);
    assert(second@ =~= lib_prefix() + clean@ + seq!['.', 's', 'o']);
    let mut names: Vec<String> = Vec::new();
    names.push(string_from_chars(&first));
    names.push(string_from_chars(&second));
    names.push(clean.to_owned());
    names
}

/// Controls which directories plugin resolution may search.
#[derive(Clone, Copy, Debug, PartialEq, Eq, Structural)]
pub enum LaunchMode {
    /// Installed system paths only.
    Daemon,
    /// Installed paths plus local development build trees.
    Preview,
}

} // verus!
