//! Where a saver's plugin library is looked for, and which candidate wins.
//!
//! The file-system probes (whether a candidate is a regular file, and whether
//! its canonical path lies under a trusted root) are made by the caller; this
//! module builds the search plan and decides from the probe results.

use vstd::prelude::*;

use crate::discovery::{join_chars, path_join};
use crate::launcher::{
    cleaned_allowed_name,
    is_allowed_saver_spec,
    lib_prefix,
    lib_saver_prefix,
    plugin_candidate_names,
    refusal_fits,
    sanitized,
    saver_name_error_text,
    LaunchMode,
    SaverNameError,
};
use crate::text::{opt_view, push_all, str_chars, string_from_chars};

verus! {

/// `path` joined with each component of `parts` in turn.
pub open spec fn join_all(path: Seq<char>, parts: Seq<Seq<char>>) -> Seq<char>
    decreases parts.len(),
{
    if parts.len() == 0 {
        path
    } else {
        path_join(join_all(path, parts.drop_last()), parts.last())
    }
}

/// The local build trees searched in preview mode for the cleaned saver name
/// `clean`, given `HOME` (`None` when unset) and whether development plugins
/// are enabled.
pub open spec fn dev_plugin_dirs_spec(clean: Seq<char>, home: Option<Seq<char>>, enabled: bool) -> Seq<
    Seq<char>,
> {
    if !enabled || home is None {
        Seq::empty()
    } else {
        let projects = path_join(home->0, "Projects"@);
        let roots = seq![
            join_all(projects, seq!["crateria"@, "trance-plugins"@]),
            join_all(projects, seq!["ubermetroid"@, "trance-plugins"@]),
        ];
        let own = path_join(projects, "trance-plugin-"@ + clean);
        seq![
            join_all(roots[0], seq!["target"@, "release"@]),
            join_all(roots[0], seq!["target"@, "debug"@]),
            join_all(roots[0], seq![clean, "target"@, "release"@]),
            join_all(roots[0], seq![clean, "target"@, "debug"@]),
            join_all(roots[1], seq!["target"@, "release"@]),
            join_all(roots[1], seq!["target"@, "debug"@]),
            join_all(roots[1], seq![clean, "target"@, "release"@]),
            join_all(roots[1], seq![clean, "target"@, "debug"@]),
            join_all(own, seq!["target"@, "release"@]),
            join_all(own, seq!["target"@, "debug"@]),
        ]
    }
}

/// A copy of `base` with the component `part` joined on.
fn joined(base: &Vec<char>, part: &str) -> (r: Vec<char>)
    ensures
        r@ == path_join(base@, part@),
{
    let mut r: Vec<char> = Vec::new();
    push_all(&mut r, base.as_slice());
    let p = str_chars(part);
    join_chars(&mut r, p.as_slice());
    r
}

/// `base` joined with `a`, then `b`.
fn joined2(base: &Vec<char>, a: &str, b: &str) -> (r: Vec<char>)
    ensures
        r@ == join_all(base@, seq![a@, b@]),
{
    let first = joined(base, a);
    let r = joined(&first, b);
    assert(seq![a@, b@].drop_last() =~= seq![a@]);
    assert(seq![a@].drop_last() =~= Seq::<Seq<char>>::empty());
    proof {
        reveal_with_fuel(join_all, 3);
    }
    r
}

/// `base` joined with `a`, then `b`, then `c`.
fn joined3(base: &Vec<char>, a: &str, b: &str, c: &str) -> (r: Vec<char>)
    ensures
        r@ == join_all(base@, seq![a@, b@, c@]),
{
    let first = joined(base, a);
    let r = joined2(&first, b, c);
    assert(seq![a@, b@, c@].drop_last() =~= seq![a@, b@]);
    assert(seq![a@, b@].drop_last() =~= seq![a@]);
    assert(seq![a@].drop_last() =~= Seq::<Seq<char>>::empty());
    assert(seq![b@, c@].drop_last() =~= seq![b@]);
    assert(seq![b@].drop_last() =~= Seq::<Seq<char>>::empty());
    proof {
        reveal_with_fuel(join_all, 4);
    }
    r
}

/// Local development build trees that preview mode may search for `clean`,
/// given `HOME` (`None` when unset) and whether development plugins are
/// enabled (always in debug builds, otherwise by environment).
pub fn dev_plugin_dirs(clean: &str, home: Option<&str>, enabled: bool) -> (dirs: Vec<String>)
    ensures
        dirs@.len() == dev_plugin_dirs_spec(clean@, opt_view(home), enabled).len(),
        forall|k: int|
            0 <= k < dirs@.len() ==> #[trigger] dirs@[k]@ == dev_plugin_dirs_spec(
                clean@,
                opt_view(home),
                enabled,
            )[k],
{
    let mut dirs: Vec<String> = Vec::new();
    if !enabled {
        return dirs;
    }
    let home = match home {
        Some(h) => h,
        None => {
            return dirs;
        },
    };
    let home_chars = str_chars(home);
    let projects = joined(&home_chars, "Projects");
    let root_a = joined2(&projects, "crateria", "trance-plugins");
    let root_b = joined2(&projects, "ubermetroid", "trance-plugins");
    let mut own_name = str_chars("trance-plugin-");
    let clean_chars = str_chars(clean);
    push_all(&mut own_name, clean_chars.as_slice());
    let mut own = Vec::new();
    push_all(&mut own, projects.as_slice());
    join_chars(&mut own, own_name.as_slice());
    let ghost spec = dev_plugin_dirs_spec(clean@, opt_view(Some(home)), enabled);
    dirs.push(string_from_chars(&joined2(&root_a, "target", "release")));
    dirs.push(string_from_chars(&joined2(&root_a, "target", "debug")));
    dirs.push(string_from_chars(&joined3(&root_a, clean, "target", "release")));
    dirs.push(string_from_chars(&joined3(&root_a, clean, "target", "debug")));
    dirs.push(string_from_chars(&joined2(&root_b, "target", "release")));
    dirs.push(string_from_chars(&joined2(&root_b, "target", "debug")));
    dirs.push(string_from_chars(&joined3(&root_b, clean, "target", "release")));
    dirs.push(string_from_chars(&joined3(&root_b, clean, "target", "debug")));
    dirs.push(string_from_chars(&joined2(&own, "target", "release")));
    dirs.push(string_from_chars(&joined2(&own, "target", "debug")));
    assert(own@ == path_join(projects@, "trance-plugin-"@ + clean@));
    dirs
}


/// The characters of each string.
pub open spec fn string_views(v: Seq<String>) -> Seq<Seq<char>> {
    v.map_values(|s: String| s@)
}

/// Roots a plugin must canonically lie under: the installed plugin
/// directories, and in preview mode the development trees too.
pub open spec fn trusted_dirs_spec(installed: Seq<Seq<char>>, dev: Seq<Seq<char>>, mode: LaunchMode) -> Seq<
    Seq<char>,
> {
    match mode {
        LaunchMode::Preview => installed + dev,
        LaunchMode::Daemon => installed,
    }
}

/// Directories searched, in order: the trusted roots, and in preview mode the
/// development trees once more after them.
pub open spec fn search_dirs_spec(installed: Seq<Seq<char>>, dev: Seq<Seq<char>>, mode: LaunchMode) -> Seq<
    Seq<char>,
> {
    match mode {
        LaunchMode::Preview => installed + dev + dev,
        LaunchMode::Daemon => installed,
    }
}

/// Basenames tried in each directory, in order.
pub open spec fn candidate_names_spec(clean: Seq<char>) -> Seq<Seq<char>> {
    seq![lib_saver_prefix() + clean + seq!['.', 's', 'o'], lib_prefix() + clean + seq!['.', 's', 'o'], clean]
}

/// The candidate paths of each searched directory.
pub open spec fn search_plan_spec(clean: Seq<char>, dirs: Seq<Seq<char>>) -> Seq<Seq<Seq<char>>> {
    Seq::new(dirs.len(), |i: int| Seq::new(3, |j: int| path_join(dirs[i], candidate_names_spec(clean)[j])))
}

/// What the file system says of one candidate path: whether it is a regular
/// file, and whether its canonical path lies under a trusted root.
#[derive(Clone, Copy, Debug, PartialEq, Eq, Structural)]
pub struct PluginProbe {
    pub is_file: bool,
    pub trusted: bool,
}

/// The probe rows as sequences.
pub open spec fn probe_rows(p: Seq<Vec<PluginProbe>>) -> Seq<Seq<PluginProbe>> {
    p.map_values(|v: Vec<PluginProbe>| v@)
}

/// Probe of candidate `j` of directory `i`; a missing probe reads as "no file".
pub open spec fn probe_of(probes: Seq<Seq<PluginProbe>>, i: int, j: int) -> PluginProbe {
    if 0 <= i < probes.len() && 0 <= j < probes[i].len() {
        probes[i][j]
    } else {
        PluginProbe { is_file: false, trusted: false }
    }
}

/// The first candidate of directory `i`, from `j` on, that is a file.
pub open spec fn first_file_from(probes: Seq<Seq<PluginProbe>>, i: int, j: int) -> Option<int>
    decreases 3 - j,
{
    if j >= 3 || j < 0 {
        None
    } else if probe_of(probes, i, j).is_file {
        Some(j)
    } else {
        first_file_from(probes, i, j + 1)
    }
}

/// The candidate directory `i` yields: its first file, if that file is trusted.
pub open spec fn trusted_candidate(probes: Seq<Seq<PluginProbe>>, i: int) -> Option<int> {
    match first_file_from(probes, i, 0) {
        Some(j) => if probe_of(probes, i, j).trusted {
            Some(j)
        } else {
            None
        },
        None => None,
    }
}

/// The first directory from `i` on (of `n`) that yields a trusted candidate, with that candidate.
pub open spec fn first_trusted_from(probes: Seq<Seq<PluginProbe>>, i: int, n: int) -> Option<(int, int)>
    decreases n - i,
{
    if i >= n || i < 0 {
        None
    } else {
        match trusted_candidate(probes, i) {
            Some(j) => Some((i, j)),
            None => first_trusted_from(probes, i + 1, n),
        }
    }
}

/// The path chosen from a search plan under the given probes.
pub open spec fn chosen_path(plan: Seq<Seq<Seq<char>>>, probes: Seq<Seq<PluginProbe>>) -> Option<Seq<char>> {
    match first_trusted_from(probes, 0, plan.len() as int) {
        Some((i, j)) => Some(plan[i][j]),
        None => None,
    }
}

/// Trusted roots for the plugin search (see [`trusted_dirs_spec`]).
pub fn trusted_plugin_dirs(installed: &Vec<String>, dev: &Vec<String>, mode: LaunchMode) -> (dirs: Vec<String>)
    ensures
        string_views(dirs@) == trusted_dirs_spec(string_views(installed@), string_views(dev@), mode),
{
    let mut dirs: Vec<String> = Vec::new();
    append_strings(&mut dirs, installed);
    if mode == LaunchMode::Preview {
        append_strings(&mut dirs, dev);
    }
    dirs
}

/// Append clones of `more` to `dirs`.
fn append_strings(dirs: &mut Vec<String>, more: &Vec<String>)
    ensures
        string_views(final(dirs)@) == string_views(old(dirs)@) + string_views(more@),
{
    let mut i: usize = 0;
    while i < more.len()
        invariant
            i <= more@.len(),
            string_views(dirs@) == string_views(old(dirs)@) + string_views(more@.take(i as int)),
        decreases more@.len() - i,
    {
        let ghost prev = dirs@;
        let item = more[i].clone();
        dirs.push(item);
        proof {
            assert(more@.take(i + 1) == more@.take(i as int).push(more@[i as int]));
            assert(string_views(dirs@) =~= string_views(prev).push(more@[i as int]@));
        }
        i = i + 1;
        proof {
            assert(string_views(dirs@) =~= string_views(old(dirs)@) + string_views(more@.take(i as int)));
        }
    }
    proof {
        assert(more@.take(i as int) == more@);
    }
}

/// The candidate paths to probe, directory by directory in search order
/// (see [`search_dirs_spec`] and [`candidate_names_spec`]).
pub fn plugin_search_plan(clean: &str, mode: LaunchMode, installed: &Vec<String>, dev: &Vec<String>) -> (plan:
    Vec<Vec<String>>)
    ensures
        plan@.len() == search_dirs_spec(string_views(installed@), string_views(dev@), mode).len(),
        forall|i: int|
            #![trigger plan@[i]]
            0 <= i < plan@.len() ==> plan@[i]@.len() == 3 && string_views(plan@[i]@) == search_plan_spec(
                clean@,
                search_dirs_spec(string_views(installed@), string_views(dev@), mode),
            )[i],
{
    let mut dirs: Vec<String> = Vec::new();
    append_strings(&mut dirs, installed);
    if mode == LaunchMode::Preview {
        append_strings(&mut dirs, dev);
        append_strings(&mut dirs, dev);
    }
    let ghost order = search_dirs_spec(string_views(installed@), string_views(dev@), mode);
    assert(string_views(dirs@) == order);
    let names = plugin_candidate_names(clean);
    let ghost cands = candidate_names_spec(clean@);
    assert(names@[0]@ == cands[0]);
    assert(names@[1]@ == cands[1]);
    assert(names@[2]@ == cands[2]);
    let mut plan: Vec<Vec<String>> = Vec::new();
    let mut i: usize = 0;
    while i < dirs.len()
        invariant
            i <= dirs@.len(),
            string_views(dirs@) == order,
            names@.len() == 3,
            forall|j: int| 0 <= j < 3 ==> #[trigger] names@[j]@ == cands[j],
            cands == candidate_names_spec(clean@),
            plan@.len() == i,
            forall|k: int|
                #![trigger plan@[k]]
                0 <= k < i ==> plan@[k]@.len() == 3 && string_views(plan@[k]@) == search_plan_spec(clean@, order)[k],
        decreases dirs@.len() - i,
    {
        proof {
            assert(order[i as int] == dirs@[i as int]@);
        }
        let base = str_chars(dirs[i].as_str());
        let mut row: Vec<String> = Vec::new();
        let mut j: usize = 0;
        while j < 3
            invariant
                j <= 3,
                i < dirs@.len(),
                order.len() == dirs@.len(),
                cands == candidate_names_spec(clean@),
                base@ == order[i as int],
                names@.len() == 3,
                forall|m: int| 0 <= m < 3 ==> #[trigger] names@[m]@ == cands[m],
                string_views(row@) == search_plan_spec(clean@, order)[i as int].take(j as int),
                row@.len() == j,
            decreases 3 - j,
        {
            let part = str_chars(names[j].as_str());
            proof {
                assert(search_plan_spec(clean@, order)[i as int][j as int] == path_join(
                    order[i as int],
                    cands[j as int],
                ));
            }
            let ghost before = row@;
            let mut path: Vec<char> = Vec::new();
            push_all(&mut path, base.as_slice());
            join_chars(&mut path, part.as_slice());
            row.push(string_from_chars(&path));
            proof {
                assert(string_views(row@) =~= string_views(before).push(path@));
            }
            j = j + 1;
            proof {
                assert(string_views(row@) =~= search_plan_spec(clean@, order)[i as int].take(j as int));
            }
        }
        proof {
            assert(search_plan_spec(clean@, order)[i as int].take(3) =~= search_plan_spec(
                clean@,
                order,
            )[i as int]);
        }
        plan.push(row);
        i = i + 1;
    }
    plan
}


/// Probe of candidate `j` of directory `i`, "no file" when missing.
fn probe_at(probes: &Vec<Vec<PluginProbe>>, i: usize, j: usize) -> (p: PluginProbe)
    ensures
        p == probe_of(probe_rows(probes@), i as int, j as int),
{
    if i < probes.len() && j < probes[i].len() {
        probes[i][j]
    } else {
        PluginProbe { is_file: false, trusted: false }
    }
}

/// The first candidate of directory `i` that is a file.
fn first_file(probes: &Vec<Vec<PluginProbe>>, i: usize) -> (r: Option<usize>)
    ensures
        match r {
            Some(j) => j < 3 && first_file_from(probe_rows(probes@), i as int, 0) == Some(j as int),
            None => first_file_from(probe_rows(probes@), i as int, 0) is None,
        },
{
    let ghost rows = probe_rows(probes@);
    let mut j: usize = 0;
    while j < 3
        invariant
            j <= 3,
            rows == probe_rows(probes@),
            first_file_from(rows, i as int, 0) == first_file_from(rows, i as int, j as int),
        decreases 3 - j,
    {
        if probe_at(probes, i, j).is_file {
            return Some(j);
        }
        j = j + 1;
    }
    None
}

/// The first directory of `plan` whose first file is trusted, and that file's path.
fn pick_plugin(plan: &Vec<Vec<String>>, probes: &Vec<Vec<PluginProbe>>) -> (r: Option<String>)
    requires
        forall|i: int| 0 <= i < plan@.len() ==> #[trigger] plan@[i]@.len() == 3,
    ensures
        match r {
            Some(p) => chosen_path(plan@.map_values(|row: Vec<String>| string_views(row@)), probe_rows(probes@))
                == Some(p@),
            None => chosen_path(plan@.map_values(|row: Vec<String>| string_views(row@)), probe_rows(probes@))
                is None,
        },
{
    let ghost rows = probe_rows(probes@);
    let ghost paths = plan@.map_values(|row: Vec<String>| string_views(row@));
    let ghost n = plan@.len() as int;
    let mut i: usize = 0;
    while i < plan.len()
        invariant
            i <= plan@.len(),
            n == plan@.len(),
            rows == probe_rows(probes@),
            forall|k: int| 0 <= k < plan@.len() ==> #[trigger] plan@[k]@.len() == 3,
            first_trusted_from(rows, 0, n) == first_trusted_from(rows, i as int, n),
            paths == plan@.map_values(|row: Vec<String>| string_views(row@)),
        decreases plan@.len() - i,
    {
        match first_file(probes, i) {
            Some(j) => {
                if probe_at(probes, i, j).trusted {
                    proof {
                        assert(first_trusted_from(rows, i as int, n) == Some((i as int, j as int)));
                        assert(paths[i as int][j as int] == plan@[i as int]@[j as int]@);
                    }
                    return Some(plan[i][j].clone());
                }
            },
            None => {},
        }
        i = i + 1;
    }
    None
}

/// Why no plugin library was resolved.
#[derive(Debug)]
pub enum ResolveError {
    /// The saver name itself was refused.
    Name(SaverNameError),
    /// No searched directory held a trusted plugin for the saver.
    NotFound { saver: String, mode: LaunchMode },
}

/// The message shown to users when a saver does not resolve.
pub open spec fn resolve_error_text(e: ResolveError) -> Seq<char> {
    match e {
        ResolveError::Name(n) => saver_name_error_text(n),
        ResolveError::NotFound { saver, mode } => "no trusted plugin found for saver '"@ + saver@
            + "' (mode "@ + match mode {
            LaunchMode::Daemon => "Daemon"@,
            LaunchMode::Preview => "Preview"@,
        } + ")"@,
    }
}

impl ResolveError {
    /// The message shown to users.
    pub fn message(&self) -> (m: String)
        ensures
            m@ == resolve_error_text(*self),
    {
        match self {
            ResolveError::Name(e) => e.message(),
            ResolveError::NotFound { saver, mode } => {
                let mut m = String::new();
                m.append("no trusted plugin found for saver '");
                m.append(saver.as_str());
                m.append("' (mode ");
                match mode {
                    LaunchMode::Daemon => m.append("Daemon"),
                    LaunchMode::Preview => m.append("Preview"),
                }
                m.append(")");
                m
            },
        }
    }
}

/// `path` lies at or under `root`, component by component: `root` is a
/// prefix of `path` that ends where a component ends. For canonical paths
/// (absolute, without `.`, `..` or repeated `/`, as `fs::canonicalize` gives
/// them) this is `Path::starts_with`.
pub open spec fn path_under(path: Seq<char>, root: Seq<char>) -> bool {
    root.len() == 0 || (crate::text::starts_with(path, root) && (path.len() == root.len() || root.last()
        == '/' || path[root.len() as int] == '/'))
}

/// Whether the canonical path `canonical` lies under one of the canonical `roots`
/// (see [`path_under`]): the test that marks a plugin candidate as trusted.
pub fn is_under_trusted_root(canonical: &str, roots: &Vec<String>) -> (r: bool)
    ensures
        r == exists|i: int| 0 <= i < roots@.len() && path_under(canonical@, #[trigger] roots@[i]@),
{
    let path = str_chars(canonical);
    let mut i: usize = 0;
    while i < roots.len()
        invariant
            0 <= i <= roots@.len(),
            path@ == canonical@,
            forall|k: int| 0 <= k < i ==> !path_under(canonical@, #[trigger] roots@[k]@),
        decreases roots@.len() - i,
    {
        let root = str_chars(roots[i].as_str());
        let under = if root.len() == 0 {
            true
        } else if crate::text::chars_start_with(&path, root.as_slice()) {
            path.len() == root.len() || root[root.len() - 1] == '/' || path[root.len()] == '/'
        } else {
            false
        };
        if under {
            assert(path_under(canonical@, roots@[i as int]@));
            return true;
        }
        i = i + 1;
    }
    false
}

/// The library a saver name resolves to: the first candidate path of the
/// search plan whose directory's first existing candidate is trusted.
pub open spec fn resolution_spec(
    clean: Seq<char>,
    mode: LaunchMode,
    installed: Seq<Seq<char>>,
    dev: Seq<Seq<char>>,
    probes: Seq<Seq<PluginProbe>>,
) -> Option<Seq<char>> {
    chosen_path(search_plan_spec(clean, search_dirs_spec(installed, dev, mode)), probes)
}

/// Resolve a saver name to a trusted plugin library path.
///
/// `installed` are the plugin directories of the system and the user,
/// `dev` the development trees (see [`dev_plugin_dirs`]), and `probes[i][j]`
/// what the file system says of candidate `j` of directory `i` of
/// [`plugin_search_plan`] for this name and mode.
pub fn resolve_saver_binary(
    name: &str,
    mode: &LaunchMode,
    installed: &Vec<String>,
    dev: &Vec<String>,
    probes: &Vec<Vec<PluginProbe>>,
) -> (r: Result<String, ResolveError>)
    ensures
        match r {
            Ok(path) => {
                &&& is_allowed_saver_spec(name@)
                &&& resolution_spec(
                    sanitized(name@)->0,
                    *mode,
                    string_views(installed@),
                    string_views(dev@),
                    probe_rows(probes@),
                ) == Some(path@)
                &&& exists|dir: Seq<char>, j: int|
                    #![trigger candidate_names_spec(sanitized(name@)->0)[j], crate::discovery::path_join(dir, candidate_names_spec(sanitized(name@)->0)[j])]
                    0 <= j < 3 && path@ == crate::discovery::path_join(
                        dir,
                        candidate_names_spec(sanitized(name@)->0)[j],
                    ) && (string_views(installed@).contains(dir) || (*mode == LaunchMode::Preview
                        && string_views(dev@).contains(dir)))
            },
            Err(ResolveError::Name(e)) => !is_allowed_saver_spec(name@) && refusal_fits(name@, e),
            Err(ResolveError::NotFound { saver, mode: m }) => is_allowed_saver_spec(name@) && sanitized(
                name@,
            ) == Some(saver@) && m == *mode && resolution_spec(
                saver@,
                *mode,
                string_views(installed@),
                string_views(dev@),
                probe_rows(probes@),
            ) is None,
        },
{
    let clean = match cleaned_allowed_name(name) {
        Ok(c) => c,
        Err(e) => {
            return Err(ResolveError::Name(e));
        },
    };
    let plan = plugin_search_plan(clean.as_str(), *mode, installed, dev);
    let ghost order = search_dirs_spec(string_views(installed@), string_views(dev@), *mode);
    proof {
        assert(plan@.map_values(|row: Vec<String>| string_views(row@)) =~= search_plan_spec(
            clean@,
            order,
        ));
    }
    proof {
        crate::laws::law_resolved_plugin_lies_in_allowed_dir(
            clean@,
            *mode,
            string_views(installed@),
            string_views(dev@),
            probe_rows(probes@),
        );
    }
    match pick_plugin(&plan, probes) {
        Some(path) => Ok(path),
        None => Err(ResolveError::NotFound { saver: clean, mode: *mode }),
    }
}

} // verus!
