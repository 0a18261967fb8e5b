//! Validation of IPC socket paths and POSIX shared-memory object names.

use vstd::prelude::*;

use crate::text::{chars_contain, chars_end_with, chars_start_with, ends_with, starts_with, str_chars};

verus! {

/// Prefix of every shared-memory object name the daemon creates.
pub open spec fn shm_prefix() -> Seq<char> {
    seq!['/', 't', 'r', 'a', 'n', 'c', 'e', '-', 's', 'h', 'm', '-']
}

/// Longest accepted suffix after [`shm_prefix`].
pub open spec fn shm_suffix_max() -> int {
    64
}

/// Characters allowed after the `/trance-shm-` prefix.
pub open spec fn is_shm_name_char(c: char) -> bool {
    ('a' <= c <= 'z') || ('A' <= c <= 'Z') || ('0' <= c <= '9') || c == '-' || c == '_'
}

/// A name of the form `/trance-shm-<suffix>` with 1 to 64 characters in the
/// suffix, each an ASCII letter, digit, `-` or `_`.
pub open spec fn is_valid_shm_name_spec(name: Seq<char>) -> bool {
    &&& starts_with(name, shm_prefix())
    &&& shm_prefix().len() < name.len() <= shm_prefix().len() + shm_suffix_max()
    &&& forall|i: int| shm_prefix().len() <= i < name.len() ==> is_shm_name_char(#[trigger] name[i])
}

/// Some `/`-separated segment of `s` is exactly `..`.
pub open spec fn has_dotdot_segment(s: Seq<char>) -> bool {
    exists|i: int|
        0 <= i && i + 2 <= s.len() && (i == 0 || s[i - 1] == '/') && #[trigger] s[i] == '.' && s[i
            + 1] == '.' && (i + 2 == s.len() || s[i + 2] == '/')
}

/// Suffix every control socket path carries.
pub open spec fn sock_suffix() -> Seq<char> {
    seq!['.', 's', 'o', 'c', 'k']
}

/// Unix socket paths hold at most 107 bytes (`sun_path` is 108 bytes with the NUL).
pub open spec fn socket_path_limit() -> int {
    108
}

/// A non-empty absolute path ending in `.sock`, shorter than 108 bytes, without
/// NUL characters and without a `..` segment.
pub open spec fn is_plausible_socket_path_spec(path: Seq<char>, byte_len: int) -> bool {
    &&& path.len() > 0
    &&& byte_len < socket_path_limit()
    &&& !path.contains('\0')
    &&& path[0] == '/'
    &&& ends_with(path, sock_suffix())
    &&& !has_dotdot_segment(path)
}

fn shm_name_char(c: char) -> (r: bool)
    ensures
        r == is_shm_name_char(c),
{
    ('a' <= c && c <= 'z') || ('A' <= c && c <= 'Z') || ('0' <= c && c <= '9') || c == '-' || c
        == '_'
}

/// POSIX SHM object names we create look like `/trance-shm-<pid>-<idx>`.
/// Reject anything else so a compromised argument vector cannot open arbitrary objects.
pub fn is_valid_shm_name(name: &str) -> (r: bool)
    ensures
        r == is_valid_shm_name_spec(name@),
{
    let chars = str_chars(name);
    let prefix = ['/', 't', 'r', 'a', 'n', 'c', 'e', '-', 's', 'h', 'm', '-'];
    assert(prefix@ == shm_prefix());
    if !chars_start_with(&chars, prefix.as_slice()) {
        return false;
    }
    let rest_len = chars.len() - 12;
    if rest_len == 0 || rest_len > 64 {
        return false;
    }
    let mut i: usize = 12;
    while i < chars.len()
        invariant
            12 <= i <= chars@.len(),
            chars@ == name@,
            forall|j: int| 12 <= j < i ==> is_shm_name_char(#[trigger] chars@[j]),
        decreases chars@.len() - i,
    {
        if !shm_name_char(chars[i]) {
            return false;
        }
        i = i + 1;
    }
    true
}

/// Whether some `/`-separated segment of `v` is exactly `..`.
fn has_dotdot(v: &Vec<char>) -> (r: bool)
    ensures
        r == has_dotdot_segment(v@),
{
    let n = v.len();
    let mut i: usize = 0;
    while n >= 2 && i <= n - 2
        invariant
            n == v@.len(),
            i <= n,
            forall|j: int|
                0 <= j < i ==> !(j + 2 <= v@.len() && (j == 0 || v@[j - 1] == '/') && #[trigger] v@[j]
                    == '.' && v@[j + 1] == '.' && (j + 2 == v@.len() || v@[j + 2] == '/')),
        decreases n - i,
    {
        if (i == 0 || v[i - 1] == '/') && v[i] == '.' && v[i + 1] == '.' && (i + 2 == n || v[i
            + 2] == '/') {
            return true;
        }
        i = i + 1;
    }
    assert forall|j: int|
        0 <= j && j + 2 <= v@.len() && (j == 0 || v@[j - 1] == '/') && #[trigger] v@[j] == '.'
            && v@[j + 1] == '.' implies !(j + 2 == v@.len() || v@[j + 2] == '/') by {
        assert(j < i);
    }
    false
}

/// UDS control paths must be absolute, end in `.sock`, stay under path limits,
/// and must not contain NULs or `..` segments.
pub fn is_plausible_socket_path(path: &str) -> (r: bool)
    ensures
        r == is_plausible_socket_path_spec(path@, path.len() as int),
{
    if path.is_empty() || path.len() >= 108 {
        return false;
    }
    let chars = str_chars(path);
    let suffix = ['.', 's', 'o', 'c', 'k'];
    assert(suffix@ == sock_suffix());
    let slash = ['/'];
    assert(slash@ == seq!['/']);
    proof {
        if chars@.len() > 0 {
            assert(starts_with(chars@, seq!['/']) <==> chars@[0] == '/') by {
                if chars@[0] == '/' {
                    assert(chars@.take(1) =~= seq!['/']);
                }
                if starts_with(chars@, seq!['/']) {
                    assert(chars@.take(1)[0] == '/');
                }
            }
        }
    }
    if chars_contain(&chars, '\0') || !chars_start_with(&chars, slash.as_slice())
        || !chars_end_with(&chars, suffix.as_slice()) {
        return false;
    }
    if has_dotdot(&chars) {
        return false;
    }
    true
}

} // verus!
