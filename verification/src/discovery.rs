//! Where screensaver plugins are searched for, and which names are offered.

use vstd::prelude::*;

use crate::launcher::{allowed_saver_names, allowed_savers, is_allowed_saver, sanitize_saver_name};
use crate::path_safety::has_dotdot_segment;
use crate::text::{opt_view, chars_contain, push_all, split_on, str_chars, string_from_chars};

verus! {

/// `base` joined with the relative component `part` (as `PathBuf::join` does on Unix).
pub open spec fn path_join(base: Seq<char>, part: Seq<char>) -> Seq<char> {
    if base.len() == 0 {
        part
    } else if base.last() == '/' {
        base + part
    } else {
        base + seq!['/'] + part
    }
}

/// An environment-supplied data root that is absolute, NUL-free and has no `..` component.
pub open spec fn is_safe_data_root_spec(path: Seq<char>) -> bool {
    &&& path.len() > 0
    &&& !path.contains('\0')
    &&& path[0] == '/'
    &&& !has_dotdot_segment(path)
}

/// Append `part` to the path `base` in place.
pub fn join_chars(base: &mut Vec<char>, part: &[char])
    ensures
        final(base)@ == path_join(old(base)@, part@),
{
    if base.len() > 0 && base[base.len() - 1] != '/' {
        base.push('/');
    }
    push_all(base, part);
}

/// Whether `v` has a `/`-separated segment that is exactly `..`.
fn has_parent_segment(v: &Vec<char>) -> (r: bool)
    ensures
        r == has_dotdot_segment(v@),
{
    let n = v.len();
    let mut i: usize = 0;
    while n >= 2 && i <= n - 2
        invariant
            n == v@.len(),
            i <= n,
            forall|j: int|
                0 <= j < i ==> !(j + 2 <= v@.len() && (j == 0 || v@[j - 1] == '/') && #[trigger] v@[j]
                    == '.' && v@[j + 1] == '.' && (j + 2 == v@.len() || v@[j + 2] == '/')),
        decreases n - i,
    {
        if (i == 0 || v[i - 1] == '/') && v[i] == '.' && v[i + 1] == '.' && (i + 2 == n || v[i
            + 2] == '/') {
            return true;
        }
        i = i + 1;
    }
    assert forall|j: int|
        0 <= j && j + 2 <= v@.len() && (j == 0 || v@[j - 1] == '/') && #[trigger] v@[j] == '.'
            && v@[j + 1] == '.' implies !(j + 2 == v@.len() || v@[j + 2] == '/') by {
        assert(j < i);
    }
    false
}

fn is_safe_root_chars(v: &Vec<char>) -> (r: bool)
    ensures
        r == is_safe_data_root_spec(v@),
{
    if v.len() == 0 || chars_contain(v, '\0') {
        return false;
    }
    if v[0] != '/' {
        return false;
    }
    !has_parent_segment(v)
}

/// Reject environment-derived roots that are relative, empty, or contain `..`.
pub fn is_safe_data_root(path: &str) -> (r: bool)
    ensures
        r == is_safe_data_root_spec(path@),
{
    let chars = str_chars(path);
    is_safe_root_chars(&chars)
}

/// The fields of `v` separated by `sep`.
pub fn split_chars(v: &Vec<char>, sep: char) -> (parts: Vec<Vec<char>>)
    ensures
        parts@.len() == split_on(v@, sep).len(),
        forall|k: int| 0 <= k < parts@.len() ==> #[trigger] parts@[k]@ == split_on(v@, sep)[k],
{
    let mut parts: Vec<Vec<char>> = Vec::new();
    let mut cur: Vec<char> = Vec::new();
    let mut i: usize = 0;
    while i < v.len()
        invariant
            i <= v@.len(),
            split_on(v@.take(i as int), sep).len() == parts@.len() + 1,
            forall|k: int|
                0 <= k < parts@.len() ==> #[trigger] parts@[k]@ == split_on(v@.take(i as int), sep)[k],
            cur@ == split_on(v@.take(i as int), sep).last(),
        decreases v@.len() - i,
    {
        let ghost prefix = v@.take(i + 1);
        assert(prefix.drop_last() =~= v@.take(i as int));
        if v[i] == sep {
            parts.push(cur);
            cur = Vec::new();
        } else {
            cur.push(v[i]);
        }
        i = i + 1;
    }
    assert(v@.take(v@.len() as int) =~= v@);
    parts.push(cur);
    parts
}

/// Canonical system plugin directories, searched first.
pub open spec fn system_saver_dirs() -> Seq<Seq<char>> {
    seq![
        seq!['/', 'u', 's', 'r', '/', 'l', 'i', 'b', 'e', 'x', 'e', 'c', '/', 'i', 'd', 'l', 'e', '/', 's', 'c', 'r', 'e', 'e', 'n', 's', 'a', 'v', 'e', 'r', 's'],
        seq!['/', 'u', 's', 'r', '/', 'l', 'o', 'c', 'a', 'l', '/', 'l', 'i', 'b', 'e', 'x', 'e', 'c', '/', 'i', 'd', 'l', 'e', '/', 's', 'c', 'r', 'e', 'e', 'n', 's', 'a', 'v', 'e', 'r', 's'],
        seq!['/', 'u', 's', 'r', '/', 'l', 'i', 'b', 'e', 'x', 'e', 'c', '/', 'i', 'd', 'l', 'e', 's', 'c', 'r', 'e', 'e', 'n', '/', 's', 'c', 'r', 'e', 'e', 'n', 's', 'a', 'v', 'e', 'r', 's'],
        seq!['/', 'u', 's', 'r', '/', 'l', 'o', 'c', 'a', 'l', '/', 'l', 'i', 'b', 'e', 'x', 'e', 'c', '/', 'i', 'd', 'l', 'e', 's', 'c', 'r', 'e', 'e', 'n', '/', 's', 'c', 'r', 'e', 'e', 'n', 's', 'a', 'v', 'e', 'r', 's'],
        seq!['/', 'u', 's', 'r', '/', 'l', 'i', 'b', 'e', 'x', 'e', 'c', '/', 't', 'r', 'a', 'n', 'c', 'e', '/', 's', 'c', 'r', 'e', 'e', 'n', 's', 'a', 'v', 'e', 'r', 's'],
        seq!['/', 'u', 's', 'r', '/', 'l', 'o', 'c', 'a', 'l', '/', 'l', 'i', 'b', 'e', 'x', 'e', 'c', '/', 't', 'r', 'a', 'n', 'c', 'e', '/', 's', 'c', 'r', 'e', 'e', 'n', 's', 'a', 'v', 'e', 'r', 's'],
    ]
}

/// Default `XDG_DATA_DIRS` when the variable is unset.
pub open spec fn default_xdg_data_dirs() -> Seq<char> {
    seq!['/', 'u', 's', 'r', '/', 'l', 'o', 'c', 'a', 'l', '/', 's', 'h', 'a', 'r', 'e', ':', '/', 'u', 's', 'r', '/', 's', 'h', 'a', 'r', 'e']
}

pub open spec fn idle_brand() -> Seq<char> {
    seq!['i', 'd', 'l', 'e']
}

pub open spec fn trance_brand() -> Seq<char> {
    seq!['t', 'r', 'a', 'n', 'c', 'e']
}

pub open spec fn screensavers_dir() -> Seq<char> {
    seq!['s', 'c', 'r', 'e', 'e', 'n', 's', 'a', 'v', 'e', 'r', 's']
}

/// `<root>/<brand>/screensavers`.
pub open spec fn brand_dir(root: Seq<char>, brand: Seq<char>) -> Seq<char> {
    path_join(path_join(root, brand), screensavers_dir())
}

/// Plugin directories contributed by the `XDG_DATA_DIRS` entries `parts`.
pub open spec fn xdg_system_dirs(parts: Seq<Seq<char>>) -> Seq<Seq<char>>
    decreases parts.len(),
{
    if parts.len() == 0 {
        Seq::empty()
    } else {
        let earlier = xdg_system_dirs(parts.drop_last());
        let part = parts.last();
        if is_safe_data_root_spec(part) {
            earlier.push(brand_dir(part, idle_brand())).push(brand_dir(part, trance_brand()))
        } else {
            earlier
        }
    }
}

/// Plugin directories under the user's home (`~/.local/{share,libexec}/<brand>/screensavers`).
pub open spec fn home_dirs(home: Seq<char>) -> Seq<Seq<char>> {
    let local = path_join(home, seq!['.', 'l', 'o', 'c', 'a', 'l']);
    let share = path_join(local, seq!['s', 'h', 'a', 'r', 'e']);
    let libexec = path_join(local, seq!['l', 'i', 'b', 'e', 'x', 'e', 'c']);
    seq![
        brand_dir(share, idle_brand()),
        brand_dir(libexec, idle_brand()),
        brand_dir(share, trance_brand()),
        brand_dir(libexec, trance_brand()),
    ]
}

/// The directories searched for plugins, given `XDG_DATA_DIRS`, `XDG_DATA_HOME`
/// and `HOME` (each `None` when unset): system paths first, user paths last.
pub open spec fn screensaver_dirs_spec(
    xdg_data_dirs: Option<Seq<char>>,
    xdg_data_home: Option<Seq<char>>,
    home: Option<Seq<char>>,
) -> Seq<Seq<char>> {
    let xdg = match xdg_data_dirs {
        Some(v) => v,
        None => default_xdg_data_dirs(),
    };
    let system = system_saver_dirs() + xdg_system_dirs(split_on(xdg, ':'));
    match xdg_data_home {
        Some(data_home) => if is_safe_data_root_spec(data_home) {
            system.push(brand_dir(data_home, idle_brand())).push(brand_dir(data_home, trance_brand()))
        } else {
            system
        },
        None => match home {
            Some(h) => if is_safe_data_root_spec(h) {
                system + home_dirs(h)
            } else {
                system
            },
            None => system,
        },
    }
}

/// `<root>/<brand>/screensavers` as characters.
fn brand_dir_chars(root: &Vec<char>, brand: &[char]) -> (r: Vec<char>)
    ensures
        r@ == brand_dir(root@, brand@),
{
    let screensavers = ['s', 'c', 'r', 'e', 'e', 'n', 's', 'a', 'v', 'e', 'r', 's'];
    assert(screensavers@ == screensavers_dir());
    let mut r: Vec<char> = Vec::new();
    push_all(&mut r, root.as_slice());
    assert(r@ =~= root@);
    join_chars(&mut r, brand);
    join_chars(&mut r, screensavers.as_slice());
    r
}

/// The six canonical system plugin directories.
fn system_dir_chars() -> (v: Vec<Vec<char>>)
    ensures
        v@.len() == 6,
        forall|k: int| 0 <= k < 6 ==> #[trigger] v@[k]@ == system_saver_dirs()[k],
{
    let idle = ['i', 'd', 'l', 'e'];
    let idlescreen = ['i', 'd', 'l', 'e', 's', 'c', 'r', 'e', 'e', 'n'];
    let trance = ['t', 'r', 'a', 'n', 'c', 'e'];
    let usr_libexec = vec!['/', 'u', 's', 'r', '/', 'l', 'i', 'b', 'e', 'x', 'e', 'c'];
    let usr_local_libexec = vec!['/', 'u', 's', 'r', '/', 'l', 'o', 'c', 'a', 'l', '/', 'l', 'i', 'b', 'e', 'x', 'e', 'c'];
    let mut v: Vec<Vec<char>> = Vec::new();
    v.push(brand_dir_chars(&usr_libexec, idle.as_slice()));
    v.push(brand_dir_chars(&usr_local_libexec, idle.as_slice()));
    v.push(brand_dir_chars(&usr_libexec, idlescreen.as_slice()));
    v.push(brand_dir_chars(&usr_local_libexec, idlescreen.as_slice()));
    v.push(brand_dir_chars(&usr_libexec, trance.as_slice()));
    v.push(brand_dir_chars(&usr_local_libexec, trance.as_slice()));
    assert(v@[0]@ =~= system_saver_dirs()[0]);
    assert(v@[1]@ =~= system_saver_dirs()[1]);
    assert(v@[2]@ =~= system_saver_dirs()[2]);
    assert(v@[3]@ =~= system_saver_dirs()[3]);
    assert(v@[4]@ =~= system_saver_dirs()[4]);
    assert(v@[5]@ =~= system_saver_dirs()[5]);
    v
}

/// `v` converted element by element into `String`s.
pub fn strings_from_chars(v: &Vec<Vec<char>>) -> (r: Vec<String>)
    ensures
        r@.len() == v@.len(),
        forall|k: int| 0 <= k < r@.len() ==> #[trigger] r@[k]@ == v@[k]@,
{
    let mut r: Vec<String> = Vec::new();
    let mut k: usize = 0;
    while k < v.len()
        invariant
            k <= v@.len(),
            r@.len() == k,
            forall|j: int| 0 <= j < k ==> #[trigger] r@[j]@ == v@[j]@,
        decreases v@.len() - k,
    {
        r.push(string_from_chars(&v[k]));
        k = k + 1;
    }
    r
}

/// Retrieve directories where screensaver plugins may be installed, given the
/// values of `XDG_DATA_DIRS`, `XDG_DATA_HOME` and `HOME` (`None` when unset).
///
/// System paths are listed first so that distribution packages under `/usr`
/// win over user-writable trees.
pub fn screensaver_dirs(
    xdg_data_dirs: Option<&str>,
    xdg_data_home: Option<&str>,
    home: Option<&str>,
) -> (dirs: Vec<String>)
    ensures
        dirs@.len() == screensaver_dirs_spec(
            opt_view(xdg_data_dirs),
            opt_view(xdg_data_home),
            opt_view(home),
        ).len(),
        forall|k: int|
            0 <= k < dirs@.len() ==> #[trigger] dirs@[k]@ == screensaver_dirs_spec(
                opt_view(xdg_data_dirs),
                opt_view(xdg_data_home),
                opt_view(home),
            )[k],
{
    let idle = ['i', 'd', 'l', 'e'];
    let trance = ['t', 'r', 'a', 'n', 'c', 'e'];
    assert(idle@ == idle_brand());
    assert(trance@ == trance_brand());
    let mut out = system_dir_chars();
    let xdg = match xdg_data_dirs {
        Some(v) => str_chars(v),
        None => {
            let d = vec!['/', 'u', 's', 'r', '/', 'l', 'o', 'c', 'a', 'l', '/', 's', 'h', 'a', 'r', 'e', ':', '/', 'u', 's', 'r', '/', 's', 'h', 'a', 'r', 'e'];
            assert(d@ =~= default_xdg_data_dirs());
            d
        },
    };
    let parts = split_chars(&xdg, ':');
    let ghost fields = split_on(xdg@, ':');
    let mut k: usize = 0;
    while k < parts.len()
        invariant
            k <= parts@.len(),
            parts@.len() == fields.len(),
            forall|j: int| 0 <= j < parts@.len() ==> #[trigger] parts@[j]@ == fields[j],
            idle@ == idle_brand(),
            trance@ == trance_brand(),
            out@.len() == (system_saver_dirs() + xdg_system_dirs(fields.take(k as int))).len(),
            forall|j: int|
                0 <= j < out@.len() ==> #[trigger] out@[j]@ == (system_saver_dirs() + xdg_system_dirs(
                    fields.take(k as int),
                ))[j],
        decreases parts@.len() - k,
    {
        assert(fields.take(k + 1).drop_last() =~= fields.take(k as int));
        assert(fields.take(k + 1).last() == parts@[k as int]@);
        let part = &parts[k];
        if is_safe_root_chars(part) {
            out.push(brand_dir_chars(part, idle.as_slice()));
            out.push(brand_dir_chars(part, trance.as_slice()));
        }
        k = k + 1;
    }
    assert(fields.take(fields.len() as int) =~= fields);
    let ghost system = system_saver_dirs() + xdg_system_dirs(fields);
    match xdg_data_home {
        Some(data_home) => {
            let root = str_chars(data_home);
            if is_safe_root_chars(&root) {
                out.push(brand_dir_chars(&root, idle.as_slice()));
                out.push(brand_dir_chars(&root, trance.as_slice()));
            }
        },
        None => {
            if let Some(h) = home {
                let root = str_chars(h);
                if is_safe_root_chars(&root) {
                    let local = ['.', 'l', 'o', 'c', 'a', 'l'];
                    let share = ['s', 'h', 'a', 'r', 'e'];
                    let libexec = ['l', 'i', 'b', 'e', 'x', 'e', 'c'];
                    let mut local_dir: Vec<char> = Vec::new();
                    push_all(&mut local_dir, root.as_slice());
                    assert(local_dir@ =~= root@);
                    join_chars(&mut local_dir, local.as_slice());
                    let mut share_dir: Vec<char> = Vec::new();
                    push_all(&mut share_dir, local_dir.as_slice());
                    assert(share_dir@ =~= local_dir@);
                    join_chars(&mut share_dir, share.as_slice());
                    let mut libexec_dir: Vec<char> = Vec::new();
                    push_all(&mut libexec_dir, local_dir.as_slice());
                    assert(libexec_dir@ =~= local_dir@);
                    join_chars(&mut libexec_dir, libexec.as_slice());
                    assert(local@ == seq!['.', 'l', 'o', 'c', 'a', 'l']);
                    assert(share@ == seq!['s', 'h', 'a', 'r', 'e']);
                    assert(libexec@ == seq!['l', 'i', 'b', 'e', 'x', 'e', 'c']);
                    out.push(brand_dir_chars(&share_dir, idle.as_slice()));
                    out.push(brand_dir_chars(&libexec_dir, idle.as_slice()));
                    out.push(brand_dir_chars(&share_dir, trance.as_slice()));
                    out.push(brand_dir_chars(&libexec_dir, trance.as_slice()));
                }
            }
        },
    }
    strings_from_chars(&out)
}

/// What the directory scan learned about one file in a plugin directory.
pub struct PluginFile {
    /// The file name, when it is valid UTF-8.
    pub name: Option<String>,
    /// Whether the entry is a regular file.
    pub is_file: bool,
    /// Whether the path has the extension `so`.
    pub has_so_extension: bool,
    /// The Unix permission bits of the file.
    pub mode: u32,
}

/// Whether some element of `v` has the characters `name`.
fn contains_name(v: &Vec<String>, name: &String) -> (r: bool)
    ensures
        r == exists|k: int| 0 <= k < v@.len() && #[trigger] v@[k]@ == name@,
{
    let target = str_chars(name.as_str());
    let mut k: usize = 0;
    while k < v.len()
        invariant
            k <= v@.len(),
            target@ == name@,
            forall|j: int| 0 <= j < k ==> #[trigger] v@[j]@ != name@,
        decreases v@.len() - k,
    {
        let candidate = str_chars(v[k].as_str());
        if crate::text::chars_equal(&candidate, target.as_slice()) {
            return true;
        }
        k = k + 1;
    }
    false
}

/// Screensavers offered to the user: the built-in allowlist first, then any
/// further allowlisted plugin found among `files` (loadable regular files,
/// in scan order, each clean name once).
///
/// Every allowlisted file cleans to a name already on the built-in list, so
/// the result is always exactly that list.
pub fn detect_screensavers_in(files: &Vec<PluginFile>) -> (savers: Vec<String>)
    ensures
        savers@.len() == allowed_saver_names().len(),
        forall|k: int| 0 <= k < savers@.len() ==> #[trigger] savers@[k]@ == allowed_saver_names()[k],
{
    let mut savers = allowed_savers();
    let mut i: usize = 0;
    while i < files.len()
        invariant
            i <= files@.len(),
            savers@.len() == allowed_saver_names().len(),
            forall|k: int| 0 <= k < savers@.len() ==> #[trigger] savers@[k]@ == allowed_saver_names()[k],
        decreases files@.len() - i,
    {
        let entry = &files[i];
        i = i + 1;
        if !entry.is_file {
            continue;
        }
        let is_exec = entry.mode & 0o111 != 0;
        if !(entry.has_so_extension || is_exec) {
            continue;
        }
        let name = match &entry.name {
            Some(n) => n,
            None => {
                continue;
            },
        };
        if !is_allowed_saver(name.as_str()) {
            continue;
        }
        let clean = match sanitize_saver_name(name.as_str()) {
            Some(c) => c,
            None => String::new(),
        };
        if clean.as_str().is_empty() {
            continue;
        }
        proof {
            let c = clean@;
            assert(allowed_saver_names().contains(c));
            let k = choose|k: int| 0 <= k < allowed_saver_names().len() && allowed_saver_names()[k] == c;
            assert(savers@[k]@ == c);
        }
        if !contains_name(&savers, &clean) {
            savers.push(clean);
        }
    }
    savers
}

} // verus!
